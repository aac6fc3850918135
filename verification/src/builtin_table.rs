//! The table of builtin functions: names, usages, arities and groups.

use vstd::prelude::*;
use crate::builtins::BuiltinGroup;

verus! {

/// The id of `print`.
pub const PRINT: usize = 0;

/// The id of `echo`.
pub const ECHO: usize = 1;

/// The id of `input`.
pub const INPUT: usize = 2;

/// The id of `bfn`.
pub const BFN: usize = 3;

/// The id of `chr`.
pub const CHR: usize = 4;

/// The id of `ord`.
pub const ORD: usize = 5;

/// The id of `int`.
pub const INT: usize = 6;

/// The id of `bin`.
pub const BIN: usize = 7;

/// The id of `oct`.
pub const OCT: usize = 8;

/// The id of `hex`.
pub const HEX: usize = 9;

/// The id of `raise`.
pub const RAISE: usize = 10;

/// The id of `exec`.
pub const EXEC: usize = 11;

/// The id of `keys`.
pub const KEYS: usize = 12;

/// The id of `haskey?`.
pub const HAS_KEY_Q: usize = 13;

/// The id of `itk`.
pub const IDX_TO_KEY: usize = 14;

/// The id of `kti`.
pub const KEY_TO_IDX: usize = 15;

/// The id of `map`.
pub const MAP: usize = 16;

/// The id of `zipw`.
pub const ZIPW: usize = 17;

/// The id of `fold`.
pub const FOLD: usize = 18;

/// The id of `scan`.
pub const SCAN: usize = 19;

/// The id of `decode`.
pub const DECODE: usize = 20;

/// The id of `encode`.
pub const ENCODE: usize = 21;

/// The id of `open`.
pub const OPEN: usize = 22;

/// The id of `fexists?`.
pub const FEXISTS_Q: usize = 23;

/// The id of `mkdir`.
pub const MKDIR: usize = 24;

/// The id of `fsize`.
pub const FSIZE: usize = 25;

/// The id of `fwrite`.
pub const FWRITE: usize = 26;

/// The id of `fwritet`.
pub const FWRITET: usize = 27;

/// The id of `fread`.
pub const FREAD: usize = 28;

/// The id of `freadt`.
pub const FREADT: usize = 29;

/// The id of `freadtln`.
pub const FREADTLN: usize = 30;

/// The id of `fseek`.
pub const FSEEK: usize = 31;

/// The id of `ftell`.
pub const FTELL: usize = 32;

/// The id of `fclose`.
pub const FCLOSE: usize = 33;

/// The id of `len`.
pub const LEN: usize = 34;

/// The id of `shape`.
pub const SHAPE: usize = 35;

/// The id of `depth`.
pub const DEPTH: usize = 36;

/// The id of `uniform?`.
pub const UNIFORM_Q: usize = 37;

/// The id of `sum`.
pub const SUM: usize = 38;

/// The id of `min`.
pub const MIN: usize = 39;

/// The id of `max`.
pub const MAX: usize = 40;

/// The id of `flatten`.
pub const FLATTEN: usize = 41;

/// The id of `reverse`.
pub const REVERSE: usize = 42;

/// The id of `sort`.
pub const SORT: usize = 43;

/// The id of `filter`.
pub const FILTER: usize = 44;

/// The id of `find`.
pub const FIND: usize = 45;

/// The id of `alloc`.
pub const ALLOC: usize = 46;

/// The id of `till`.
pub const TILL: usize = 47;

/// The id of `iota`.
pub const IOTA: usize = 48;

/// The id of `reshape`.
pub const RESHAPE: usize = 49;

/// The id of `where`.
pub const WHERE: usize = 50;

/// The id of `not`.
pub const NOT: usize = 51;

/// The id of `and`.
pub const AND: usize = 52;

/// The id of `or`.
pub const OR: usize = 53;

/// The id of `xor`.
pub const XOR: usize = 54;

/// The id of `bnot`.
pub const BNOT: usize = 55;

/// The id of `band`.
pub const BAND: usize = 56;

/// The id of `bor`.
pub const BOR: usize = 57;

/// The id of `bxor`.
pub const BXOR: usize = 58;

/// The id of `shl`.
pub const SHL: usize = 59;

/// The id of `shr`.
pub const SHR: usize = 60;

/// The id of `neg`.
pub const NEG: usize = 61;

/// The id of `abs`.
pub const ABS: usize = 62;

/// The id of `sgn`.
pub const SGN: usize = 63;

/// The id of `sqrt`.
pub const SQRT: usize = 64;

/// The id of `exp`.
pub const EXP: usize = 65;

/// The id of `ln`.
pub const LN: usize = 66;

/// The id of `log2`.
pub const LOG2: usize = 67;

/// The id of `log10`.
pub const LOG10: usize = 68;

/// The id of `floor`.
pub const FLOOR: usize = 69;

/// The id of `ceil`.
pub const CEIL: usize = 70;

/// The id of `round`.
pub const ROUND: usize = 71;

/// The id of `sin`.
pub const SIN: usize = 72;

/// The id of `cos`.
pub const COS: usize = 73;

/// The id of `tan`.
pub const TAN: usize = 74;

/// The id of `arcsin`.
pub const ARCSIN: usize = 75;

/// The id of `arccos`.
pub const ARCCOS: usize = 76;

/// The id of `arctan`.
pub const ARCTAN: usize = 77;

/// The id of `sinh`.
pub const SINH: usize = 78;

/// The id of `cosh`.
pub const COSH: usize = 79;

/// The id of `tanh`.
pub const TANH: usize = 80;

/// The id of `arcsinh`.
pub const ARCSINH: usize = 81;

/// The id of `arccosh`.
pub const ARCCOSH: usize = 82;

/// The id of `arctanh`.
pub const ARCTANH: usize = 83;

/// The id of `log`.
pub const LOG: usize = 84;

/// The id of `arctan2`.
pub const ARCTAN2: usize = 85;

/// The id of `rand`.
pub const RAND: usize = 86;

/// The id of `transpose`.
pub const TRANSPOSE: usize = 87;

/// The id of `str`.
pub const STR: usize = 88;

/// The id of `fmt`.
pub const FMT: usize = 89;

/// The id of `graphemes`.
pub const GRAPHEMES: usize = 90;

/// The id of `ws?`.
pub const WS_Q: usize = 91;

/// The id of `words`.
pub const WORDS: usize = 92;

/// The id of `trim`.
pub const TRIM: usize = 93;

/// The id of `trims`.
pub const TRIM_S: usize = 94;

/// The id of `trime`.
pub const TRIM_E: usize = 95;

/// The id of `showtable`.
pub const SHOWTABLE: usize = 96;

/// The id of `asciiplot`.
pub const ASCIIPLOT: usize = 97;

/// The id of `type`.
pub const TYPE: usize = 98;

/// The id of `symbol`.
pub const SYMBOL: usize = 99;

/// The id of `atom?`.
pub const ATOM_Q: usize = 100;

/// The id of `unit?`.
pub const UNIT_Q: usize = 101;

/// The number of builtins.
pub const BUILTIN_COUNT: usize = 102;

/// The name of the builtin with the given id.
pub open spec fn builtin_name_v(id: int) -> Seq<char> {
    if id == 0 {
        "print"@
    } else if id == 1 {
        "echo"@
    } else if id == 2 {
        "input"@
    } else if id == 3 {
        "bfn"@
    } else if id == 4 {
        "chr"@
    } else if id == 5 {
        "ord"@
    } else if id == 6 {
        "int"@
    } else if id == 7 {
        "bin"@
    } else if id == 8 {
        "oct"@
    } else if id == 9 {
        "hex"@
    } else if id == 10 {
        "raise"@
    } else if id == 11 {
        "exec"@
    } else if id == 12 {
        "keys"@
    } else if id == 13 {
        "haskey?"@
    } else if id == 14 {
        "itk"@
    } else if id == 15 {
        "kti"@
    } else if id == 16 {
        "map"@
    } else if id == 17 {
        "zipw"@
    } else if id == 18 {
        "fold"@
    } else if id == 19 {
        "scan"@
    } else if id == 20 {
        "decode"@
    } else if id == 21 {
        "encode"@
    } else if id == 22 {
        "open"@
    } else if id == 23 {
        "fexists?"@
    } else if id == 24 {
        "mkdir"@
    } else if id == 25 {
        "fsize"@
    } else if id == 26 {
        "fwrite"@
    } else if id == 27 {
        "fwritet"@
    } else if id == 28 {
        "fread"@
    } else if id == 29 {
        "freadt"@
    } else if id == 30 {
        "freadtln"@
    } else if id == 31 {
        "fseek"@
    } else if id == 32 {
        "ftell"@
    } else if id == 33 {
        "fclose"@
    } else if id == 34 {
        "len"@
    } else if id == 35 {
        "shape"@
    } else if id == 36 {
        "depth"@
    } else if id == 37 {
        "uniform?"@
    } else if id == 38 {
        "sum"@
    } else if id == 39 {
        "min"@
    } else if id == 40 {
        "max"@
    } else if id == 41 {
        "flatten"@
    } else if id == 42 {
        "reverse"@
    } else if id == 43 {
        "sort"@
    } else if id == 44 {
        "filter"@
    } else if id == 45 {
        "find"@
    } else if id == 46 {
        "alloc"@
    } else if id == 47 {
        "till"@
    } else if id == 48 {
        "iota"@
    } else if id == 49 {
        "reshape"@
    } else if id == 50 {
        "where"@
    } else if id == 51 {
        "not"@
    } else if id == 52 {
        "and"@
    } else if id == 53 {
        "or"@
    } else if id == 54 {
        "xor"@
    } else if id == 55 {
        "bnot"@
    } else if id == 56 {
        "band"@
    } else if id == 57 {
        "bor"@
    } else if id == 58 {
        "bxor"@
    } else if id == 59 {
        "shl"@
    } else if id == 60 {
        "shr"@
    } else if id == 61 {
        "neg"@
    } else if id == 62 {
        "abs"@
    } else if id == 63 {
        "sgn"@
    } else if id == 64 {
        "sqrt"@
    } else if id == 65 {
        "exp"@
    } else if id == 66 {
        "ln"@
    } else if id == 67 {
        "log2"@
    } else if id == 68 {
        "log10"@
    } else if id == 69 {
        "floor"@
    } else if id == 70 {
        "ceil"@
    } else if id == 71 {
        "round"@
    } else if id == 72 {
        "sin"@
    } else if id == 73 {
        "cos"@
    } else if id == 74 {
        "tan"@
    } else if id == 75 {
        "arcsin"@
    } else if id == 76 {
        "arccos"@
    } else if id == 77 {
        "arctan"@
    } else if id == 78 {
        "sinh"@
    } else if id == 79 {
        "cosh"@
    } else if id == 80 {
        "tanh"@
    } else if id == 81 {
        "arcsinh"@
    } else if id == 82 {
        "arccosh"@
    } else if id == 83 {
        "arctanh"@
    } else if id == 84 {
        "log"@
    } else if id == 85 {
        "arctan2"@
    } else if id == 86 {
        "rand"@
    } else if id == 87 {
        "transpose"@
    } else if id == 88 {
        "str"@
    } else if id == 89 {
        "fmt"@
    } else if id == 90 {
        "graphemes"@
    } else if id == 91 {
        "ws?"@
    } else if id == 92 {
        "words"@
    } else if id == 93 {
        "trim"@
    } else if id == 94 {
        "trims"@
    } else if id == 95 {
        "trime"@
    } else if id == 96 {
        "showtable"@
    } else if id == 97 {
        "asciiplot"@
    } else if id == 98 {
        "type"@
    } else if id == 99 {
        "symbol"@
    } else if id == 100 {
        "atom?"@
    } else if id == 101 {
        "unit?"@
    } else {
        Seq::empty()
    }
}

/// The usage line of the builtin with the given id.
pub open spec fn builtin_usage_v(id: int) -> Seq<char> {
    if id == 0 {
        "print[value*]"@
    } else if id == 1 {
        "echo[value*]"@
    } else if id == 2 {
        "input[prompt?]"@
    } else if id == 3 {
        "bfn[]"@
    } else if id == 4 {
        "chr[xs]"@
    } else if id == 5 {
        "ord[xs]"@
    } else if id == 6 {
        "int[x], int[x;base]"@
    } else if id == 7 {
        "bin[prefix?;xs]"@
    } else if id == 8 {
        "oct[prefix?;xs]"@
    } else if id == 9 {
        "hex[prefix?;xs]"@
    } else if id == 10 {
        "raise[msg]"@
    } else if id == 11 {
        "exec[parts+]"@
    } else if id == 12 {
        "keys[xs]"@
    } else if id == 13 {
        "haskey?[k;xs]"@
    } else if id == 14 {
        "itk[i;xs]"@
    } else if id == 15 {
        "kti[k;xs]"@
    } else if id == 16 {
        "map[f;xs], map[d;f;xs]"@
    } else if id == 17 {
        "zipw[f;xs;ys], zipw[d;f;xs;ys]"@
    } else if id == 18 {
        "fold[f;xs], fold[f;acc;xs]"@
    } else if id == 19 {
        "scan[f;xs], scan[f;acc;xs]"@
    } else if id == 20 {
        "decode[codec;bytes], decode[codec;mode;bytes]"@
    } else if id == 21 {
        "encode[codec;text], encode[codec;mode;text]"@
    } else if id == 22 {
        "open[path;flag?]"@
    } else if id == 23 {
        "fexists?[path]"@
    } else if id == 24 {
        "mkdir[path]"@
    } else if id == 25 {
        "fsize[path]"@
    } else if id == 26 {
        "fwrite[stream;bytes]"@
    } else if id == 27 {
        "fwritet[stream;text]"@
    } else if id == 28 {
        "fread[stream;len?]"@
    } else if id == 29 {
        "freadt[stream;len]"@
    } else if id == 30 {
        "freadtln[stream]"@
    } else if id == 31 {
        "fseek[stream;offset;whence?]"@
    } else if id == 32 {
        "ftell[stream]"@
    } else if id == 33 {
        "fclose[stream]"@
    } else if id == 34 {
        "len[xs]"@
    } else if id == 35 {
        "shape[xs]"@
    } else if id == 36 {
        "depth[xs]"@
    } else if id == 37 {
        "uniform?[xs]"@
    } else if id == 38 {
        "sum[xs*]"@
    } else if id == 39 {
        "min[xs], min[xs;ys+]"@
    } else if id == 40 {
        "max[xs], max[xs;ys+]"@
    } else if id == 41 {
        "flatten[xs]"@
    } else if id == 42 {
        "reverse[xs]"@
    } else if id == 43 {
        "sort[xs]"@
    } else if id == 44 {
        "filter[f;xs]"@
    } else if id == 45 {
        "find[elem;xs], find[elem;threshold;xs], find[elem;threshold;depth;xs]"@
    } else if id == 46 {
        "alloc[shape]"@
    } else if id == 47 {
        "till[shape]"@
    } else if id == 48 {
        "iota[shape]"@
    } else if id == 49 {
        "reshape[shape;x]"@
    } else if id == 50 {
        "where[xs]"@
    } else if id == 51 {
        "not[xs]"@
    } else if id == 52 {
        "and[xs;ys+]"@
    } else if id == 53 {
        "or[xs;ys+]"@
    } else if id == 54 {
        "xor[xs;ys+]"@
    } else if id == 55 {
        "bnot[xs]"@
    } else if id == 56 {
        "band[xs;ys+]"@
    } else if id == 57 {
        "bor[xs;ys+]"@
    } else if id == 58 {
        "bxor[xs;ys+]"@
    } else if id == 59 {
        "shl[xs;shift]"@
    } else if id == 60 {
        "shr[xs;shift]"@
    } else if id == 61 {
        "neg[xs]"@
    } else if id == 62 {
        "abs[xs]"@
    } else if id == 63 {
        "sgn[xs]"@
    } else if id == 64 {
        "sqrt[xs]"@
    } else if id == 65 {
        "exp[xs]"@
    } else if id == 66 {
        "ln[xs]"@
    } else if id == 67 {
        "log2[xs]"@
    } else if id == 68 {
        "log10[xs]"@
    } else if id == 69 {
        "floor[xs]"@
    } else if id == 70 {
        "ceil[xs]"@
    } else if id == 71 {
        "round[xs]"@
    } else if id == 72 {
        "sin[xs]"@
    } else if id == 73 {
        "cos[xs]"@
    } else if id == 74 {
        "tan[xs]"@
    } else if id == 75 {
        "arcsin[xs]"@
    } else if id == 76 {
        "arccos[xs]"@
    } else if id == 77 {
        "arctan[xs]"@
    } else if id == 78 {
        "sinh[xs]"@
    } else if id == 79 {
        "cosh[xs]"@
    } else if id == 80 {
        "tanh[xs]"@
    } else if id == 81 {
        "arcsinh[xs]"@
    } else if id == 82 {
        "arccosh[xs]"@
    } else if id == 83 {
        "arctanh[xs]"@
    } else if id == 84 {
        "log[x;a]"@
    } else if id == 85 {
        "arctan2[xs]"@
    } else if id == 86 {
        "rand[], rand[upper], rand[lower;upper]"@
    } else if id == 87 {
        "transpose[x]"@
    } else if id == 88 {
        "str[x]"@
    } else if id == 89 {
        "fmt[template;v*]"@
    } else if id == 90 {
        "graphemes[s]"@
    } else if id == 91 {
        "ws?[x]"@
    } else if id == 92 {
        "words[s]"@
    } else if id == 93 {
        "trim[s]"@
    } else if id == 94 {
        "trims[s]"@
    } else if id == 95 {
        "trime[s]"@
    } else if id == 96 {
        "showtable[table]"@
    } else if id == 97 {
        "asciiplot[data+], asciiplot[data+;opts]"@
    } else if id == 98 {
        "type[x]"@
    } else if id == 99 {
        "symbol[x]"@
    } else if id == 100 {
        "atom?[x]"@
    } else if id == 101 {
        "unit?[x]"@
    } else {
        Seq::empty()
    }
}

/// The argument counts that the builtin with the given id accepts.
pub open spec fn builtin_arity_v(id: int) -> Seq<char> {
    if id == 0 {
        "0+"@
    } else if id == 1 {
        "0+"@
    } else if id == 2 {
        "0, 1"@
    } else if id == 3 {
        "0"@
    } else if id == 4 {
        "1"@
    } else if id == 5 {
        "1"@
    } else if id == 6 {
        "1, 2"@
    } else if id == 7 {
        "1, 2"@
    } else if id == 8 {
        "1, 2"@
    } else if id == 9 {
        "1, 2"@
    } else if id == 10 {
        "1"@
    } else if id == 11 {
        "1+"@
    } else if id == 12 {
        "1"@
    } else if id == 13 {
        "2"@
    } else if id == 14 {
        "2"@
    } else if id == 15 {
        "2"@
    } else if id == 16 {
        "2, 3"@
    } else if id == 17 {
        "3, 4"@
    } else if id == 18 {
        "2, 3"@
    } else if id == 19 {
        "2, 3"@
    } else if id == 20 {
        "2, 3"@
    } else if id == 21 {
        "2, 3"@
    } else if id == 22 {
        "1, 2"@
    } else if id == 23 {
        "1"@
    } else if id == 24 {
        "1"@
    } else if id == 25 {
        "1"@
    } else if id == 26 {
        "2"@
    } else if id == 27 {
        "2"@
    } else if id == 28 {
        "1, 2"@
    } else if id == 29 {
        "1, 2"@
    } else if id == 30 {
        "1"@
    } else if id == 31 {
        "2, 3"@
    } else if id == 32 {
        "1"@
    } else if id == 33 {
        "1"@
    } else if id == 34 {
        "1"@
    } else if id == 35 {
        "1"@
    } else if id == 36 {
        "1"@
    } else if id == 37 {
        "1"@
    } else if id == 38 {
        "0+"@
    } else if id == 39 {
        "1+"@
    } else if id == 40 {
        "1+"@
    } else if id == 41 {
        "1"@
    } else if id == 42 {
        "1"@
    } else if id == 43 {
        "1"@
    } else if id == 44 {
        "2"@
    } else if id == 45 {
        "2, 3, 4"@
    } else if id == 46 {
        "1"@
    } else if id == 47 {
        "1"@
    } else if id == 48 {
        "1"@
    } else if id == 49 {
        "2"@
    } else if id == 50 {
        "1"@
    } else if id == 51 {
        "1"@
    } else if id == 52 {
        "2+"@
    } else if id == 53 {
        "2+"@
    } else if id == 54 {
        "2+"@
    } else if id == 55 {
        "1"@
    } else if id == 56 {
        "2+"@
    } else if id == 57 {
        "2+"@
    } else if id == 58 {
        "2+"@
    } else if id == 59 {
        "2"@
    } else if id == 60 {
        "2"@
    } else if id == 61 {
        "1"@
    } else if id == 62 {
        "1"@
    } else if id == 63 {
        "1"@
    } else if id == 64 {
        "1"@
    } else if id == 65 {
        "1"@
    } else if id == 66 {
        "1"@
    } else if id == 67 {
        "1"@
    } else if id == 68 {
        "1"@
    } else if id == 69 {
        "1"@
    } else if id == 70 {
        "1"@
    } else if id == 71 {
        "1"@
    } else if id == 72 {
        "1"@
    } else if id == 73 {
        "1"@
    } else if id == 74 {
        "1"@
    } else if id == 75 {
        "1"@
    } else if id == 76 {
        "1"@
    } else if id == 77 {
        "1"@
    } else if id == 78 {
        "1"@
    } else if id == 79 {
        "1"@
    } else if id == 80 {
        "1"@
    } else if id == 81 {
        "1"@
    } else if id == 82 {
        "1"@
    } else if id == 83 {
        "1"@
    } else if id == 84 {
        "2"@
    } else if id == 85 {
        "1"@
    } else if id == 86 {
        "0, 1, 2"@
    } else if id == 87 {
        "1"@
    } else if id == 88 {
        "1"@
    } else if id == 89 {
        "1+"@
    } else if id == 90 {
        "1"@
    } else if id == 91 {
        "1"@
    } else if id == 92 {
        "1"@
    } else if id == 93 {
        "1"@
    } else if id == 94 {
        "1"@
    } else if id == 95 {
        "1"@
    } else if id == 96 {
        "1"@
    } else if id == 97 {
        "1+"@
    } else if id == 98 {
        "1"@
    } else if id == 99 {
        "1"@
    } else if id == 100 {
        "1"@
    } else if id == 101 {
        "1"@
    } else {
        Seq::empty()
    }
}

/// The group of the builtin with the given id.
pub open spec fn builtin_group_v(id: int) -> BuiltinGroup {
    if id == 0 {
        BuiltinGroup::CoreIo
    } else if id == 1 {
        BuiltinGroup::CoreIo
    } else if id == 2 {
        BuiltinGroup::CoreIo
    } else if id == 3 {
        BuiltinGroup::CorePure
    } else if id == 4 {
        BuiltinGroup::CorePure
    } else if id == 5 {
        BuiltinGroup::CorePure
    } else if id == 6 {
        BuiltinGroup::CorePure
    } else if id == 7 {
        BuiltinGroup::CorePure
    } else if id == 8 {
        BuiltinGroup::CorePure
    } else if id == 9 {
        BuiltinGroup::CorePure
    } else if id == 10 {
        BuiltinGroup::CorePure
    } else if id == 11 {
        BuiltinGroup::Exec
    } else if id == 12 {
        BuiltinGroup::Dict
    } else if id == 13 {
        BuiltinGroup::Dict
    } else if id == 14 {
        BuiltinGroup::Dict
    } else if id == 15 {
        BuiltinGroup::Dict
    } else if id == 16 {
        BuiltinGroup::HigherOrder
    } else if id == 17 {
        BuiltinGroup::HigherOrder
    } else if id == 18 {
        BuiltinGroup::HigherOrder
    } else if id == 19 {
        BuiltinGroup::HigherOrder
    } else if id == 20 {
        BuiltinGroup::Encoding
    } else if id == 21 {
        BuiltinGroup::Encoding
    } else if id == 22 {
        BuiltinGroup::FileIo
    } else if id == 23 {
        BuiltinGroup::FileIo
    } else if id == 24 {
        BuiltinGroup::FileIo
    } else if id == 25 {
        BuiltinGroup::FileIo
    } else if id == 26 {
        BuiltinGroup::FileIo
    } else if id == 27 {
        BuiltinGroup::FileIo
    } else if id == 28 {
        BuiltinGroup::FileIo
    } else if id == 29 {
        BuiltinGroup::FileIo
    } else if id == 30 {
        BuiltinGroup::FileIo
    } else if id == 31 {
        BuiltinGroup::FileIo
    } else if id == 32 {
        BuiltinGroup::FileIo
    } else if id == 33 {
        BuiltinGroup::FileIo
    } else if id == 34 {
        BuiltinGroup::Intrinsic
    } else if id == 35 {
        BuiltinGroup::List
    } else if id == 36 {
        BuiltinGroup::List
    } else if id == 37 {
        BuiltinGroup::List
    } else if id == 38 {
        BuiltinGroup::List
    } else if id == 39 {
        BuiltinGroup::List
    } else if id == 40 {
        BuiltinGroup::List
    } else if id == 41 {
        BuiltinGroup::List
    } else if id == 42 {
        BuiltinGroup::List
    } else if id == 43 {
        BuiltinGroup::List
    } else if id == 44 {
        BuiltinGroup::List
    } else if id == 45 {
        BuiltinGroup::List
    } else if id == 46 {
        BuiltinGroup::ListGen
    } else if id == 47 {
        BuiltinGroup::ListGen
    } else if id == 48 {
        BuiltinGroup::ListGen
    } else if id == 49 {
        BuiltinGroup::ListGen
    } else if id == 50 {
        BuiltinGroup::ListGen
    } else if id == 51 {
        BuiltinGroup::Logical
    } else if id == 52 {
        BuiltinGroup::Logical
    } else if id == 53 {
        BuiltinGroup::Logical
    } else if id == 54 {
        BuiltinGroup::Logical
    } else if id == 55 {
        BuiltinGroup::Logical
    } else if id == 56 {
        BuiltinGroup::Logical
    } else if id == 57 {
        BuiltinGroup::Logical
    } else if id == 58 {
        BuiltinGroup::Logical
    } else if id == 59 {
        BuiltinGroup::Logical
    } else if id == 60 {
        BuiltinGroup::Logical
    } else if id == 61 {
        BuiltinGroup::Math
    } else if id == 62 {
        BuiltinGroup::Math
    } else if id == 63 {
        BuiltinGroup::Math
    } else if id == 64 {
        BuiltinGroup::Math
    } else if id == 65 {
        BuiltinGroup::Math
    } else if id == 66 {
        BuiltinGroup::Math
    } else if id == 67 {
        BuiltinGroup::Math
    } else if id == 68 {
        BuiltinGroup::Math
    } else if id == 69 {
        BuiltinGroup::Math
    } else if id == 70 {
        BuiltinGroup::Math
    } else if id == 71 {
        BuiltinGroup::Math
    } else if id == 72 {
        BuiltinGroup::Math
    } else if id == 73 {
        BuiltinGroup::Math
    } else if id == 74 {
        BuiltinGroup::Math
    } else if id == 75 {
        BuiltinGroup::Math
    } else if id == 76 {
        BuiltinGroup::Math
    } else if id == 77 {
        BuiltinGroup::Math
    } else if id == 78 {
        BuiltinGroup::Math
    } else if id == 79 {
        BuiltinGroup::Math
    } else if id == 80 {
        BuiltinGroup::Math
    } else if id == 81 {
        BuiltinGroup::Math
    } else if id == 82 {
        BuiltinGroup::Math
    } else if id == 83 {
        BuiltinGroup::Math
    } else if id == 84 {
        BuiltinGroup::Math
    } else if id == 85 {
        BuiltinGroup::Math
    } else if id == 86 {
        BuiltinGroup::Rand
    } else if id == 87 {
        BuiltinGroup::Mat
    } else if id == 88 {
        BuiltinGroup::Str
    } else if id == 89 {
        BuiltinGroup::Intrinsic
    } else if id == 90 {
        BuiltinGroup::Str
    } else if id == 91 {
        BuiltinGroup::Str
    } else if id == 92 {
        BuiltinGroup::Str
    } else if id == 93 {
        BuiltinGroup::Str
    } else if id == 94 {
        BuiltinGroup::Str
    } else if id == 95 {
        BuiltinGroup::Str
    } else if id == 96 {
        BuiltinGroup::Viz
    } else if id == 97 {
        BuiltinGroup::Viz
    } else if id == 98 {
        BuiltinGroup::Type
    } else if id == 99 {
        BuiltinGroup::Type
    } else if id == 100 {
        BuiltinGroup::Type
    } else if id == 101 {
        BuiltinGroup::Type
    } else {
        BuiltinGroup::Intrinsic
    }
}

/// The name of the builtin with the given id.
pub fn builtin_name(id: usize) -> (r: &'static str)
    requires
        id < BUILTIN_COUNT,
    ensures
        r@ == builtin_name_v(id as int),
{
    match id {
        0 => "print",
        1 => "echo",
        2 => "input",
        3 => "bfn",
        4 => "chr",
        5 => "ord",
        6 => "int",
        7 => "bin",
        8 => "oct",
        9 => "hex",
        10 => "raise",
        11 => "exec",
        12 => "keys",
        13 => "haskey?",
        14 => "itk",
        15 => "kti",
        16 => "map",
        17 => "zipw",
        18 => "fold",
        19 => "scan",
        20 => "decode",
        21 => "encode",
        22 => "open",
        23 => "fexists?",
        24 => "mkdir",
        25 => "fsize",
        26 => "fwrite",
        27 => "fwritet",
        28 => "fread",
        29 => "freadt",
        30 => "freadtln",
        31 => "fseek",
        32 => "ftell",
        33 => "fclose",
        34 => "len",
        35 => "shape",
        36 => "depth",
        37 => "uniform?",
        38 => "sum",
        39 => "min",
        40 => "max",
        41 => "flatten",
        42 => "reverse",
        43 => "sort",
        44 => "filter",
        45 => "find",
        46 => "alloc",
        47 => "till",
        48 => "iota",
        49 => "reshape",
        50 => "where",
        51 => "not",
        52 => "and",
        53 => "or",
        54 => "xor",
        55 => "bnot",
        56 => "band",
        57 => "bor",
        58 => "bxor",
        59 => "shl",
        60 => "shr",
        61 => "neg",
        62 => "abs",
        63 => "sgn",
        64 => "sqrt",
        65 => "exp",
        66 => "ln",
        67 => "log2",
        68 => "log10",
        69 => "floor",
        70 => "ceil",
        71 => "round",
        72 => "sin",
        73 => "cos",
        74 => "tan",
        75 => "arcsin",
        76 => "arccos",
        77 => "arctan",
        78 => "sinh",
        79 => "cosh",
        80 => "tanh",
        81 => "arcsinh",
        82 => "arccosh",
        83 => "arctanh",
        84 => "log",
        85 => "arctan2",
        86 => "rand",
        87 => "transpose",
        88 => "str",
        89 => "fmt",
        90 => "graphemes",
        91 => "ws?",
        92 => "words",
        93 => "trim",
        94 => "trims",
        95 => "trime",
        96 => "showtable",
        97 => "asciiplot",
        98 => "type",
        99 => "symbol",
        100 => "atom?",
        101 => "unit?",
        _ => "unit?",
    }
}

/// The usage line of the builtin with the given id.
pub fn builtin_usage(id: usize) -> (r: &'static str)
    requires
        id < BUILTIN_COUNT,
    ensures
        r@ == builtin_usage_v(id as int),
{
    match id {
        0 => "print[value*]",
        1 => "echo[value*]",
        2 => "input[prompt?]",
        3 => "bfn[]",
        4 => "chr[xs]",
        5 => "ord[xs]",
        6 => "int[x], int[x;base]",
        7 => "bin[prefix?;xs]",
        8 => "oct[prefix?;xs]",
        9 => "hex[prefix?;xs]",
        10 => "raise[msg]",
        11 => "exec[parts+]",
        12 => "keys[xs]",
        13 => "haskey?[k;xs]",
        14 => "itk[i;xs]",
        15 => "kti[k;xs]",
        16 => "map[f;xs], map[d;f;xs]",
        17 => "zipw[f;xs;ys], zipw[d;f;xs;ys]",
        18 => "fold[f;xs], fold[f;acc;xs]",
        19 => "scan[f;xs], scan[f;acc;xs]",
        20 => "decode[codec;bytes], decode[codec;mode;bytes]",
        21 => "encode[codec;text], encode[codec;mode;text]",
        22 => "open[path;flag?]",
        23 => "fexists?[path]",
        24 => "mkdir[path]",
        25 => "fsize[path]",
        26 => "fwrite[stream;bytes]",
        27 => "fwritet[stream;text]",
        28 => "fread[stream;len?]",
        29 => "freadt[stream;len]",
        30 => "freadtln[stream]",
        31 => "fseek[stream;offset;whence?]",
        32 => "ftell[stream]",
        33 => "fclose[stream]",
        34 => "len[xs]",
        35 => "shape[xs]",
        36 => "depth[xs]",
        37 => "uniform?[xs]",
        38 => "sum[xs*]",
        39 => "min[xs], min[xs;ys+]",
        40 => "max[xs], max[xs;ys+]",
        41 => "flatten[xs]",
        42 => "reverse[xs]",
        43 => "sort[xs]",
        44 => "filter[f;xs]",
        45 => "find[elem;xs], find[elem;threshold;xs], find[elem;threshold;depth;xs]",
        46 => "alloc[shape]",
        47 => "till[shape]",
        48 => "iota[shape]",
        49 => "reshape[shape;x]",
        50 => "where[xs]",
        51 => "not[xs]",
        52 => "and[xs;ys+]",
        53 => "or[xs;ys+]",
        54 => "xor[xs;ys+]",
        55 => "bnot[xs]",
        56 => "band[xs;ys+]",
        57 => "bor[xs;ys+]",
        58 => "bxor[xs;ys+]",
        59 => "shl[xs;shift]",
        60 => "shr[xs;shift]",
        61 => "neg[xs]",
        62 => "abs[xs]",
        63 => "sgn[xs]",
        64 => "sqrt[xs]",
        65 => "exp[xs]",
        66 => "ln[xs]",
        67 => "log2[xs]",
        68 => "log10[xs]",
        69 => "floor[xs]",
        70 => "ceil[xs]",
        71 => "round[xs]",
        72 => "sin[xs]",
        73 => "cos[xs]",
        74 => "tan[xs]",
        75 => "arcsin[xs]",
        76 => "arccos[xs]",
        77 => "arctan[xs]",
        78 => "sinh[xs]",
        79 => "cosh[xs]",
        80 => "tanh[xs]",
        81 => "arcsinh[xs]",
        82 => "arccosh[xs]",
        83 => "arctanh[xs]",
        84 => "log[x;a]",
        85 => "arctan2[xs]",
        86 => "rand[], rand[upper], rand[lower;upper]",
        87 => "transpose[x]",
        88 => "str[x]",
        89 => "fmt[template;v*]",
        90 => "graphemes[s]",
        91 => "ws?[x]",
        92 => "words[s]",
        93 => "trim[s]",
        94 => "trims[s]",
        95 => "trime[s]",
        96 => "showtable[table]",
        97 => "asciiplot[data+], asciiplot[data+;opts]",
        98 => "type[x]",
        99 => "symbol[x]",
        100 => "atom?[x]",
        101 => "unit?[x]",
        _ => "unit?[x]",
    }
}

/// The argument counts that the builtin with the given id accepts.
pub fn builtin_arity(id: usize) -> (r: &'static str)
    requires
        id < BUILTIN_COUNT,
    ensures
        r@ == builtin_arity_v(id as int),
{
    match id {
        0 => "0+",
        1 => "0+",
        2 => "0, 1",
        3 => "0",
        4 => "1",
        5 => "1",
        6 => "1, 2",
        7 => "1, 2",
        8 => "1, 2",
        9 => "1, 2",
        10 => "1",
        11 => "1+",
        12 => "1",
        13 => "2",
        14 => "2",
        15 => "2",
        16 => "2, 3",
        17 => "3, 4",
        18 => "2, 3",
        19 => "2, 3",
        20 => "2, 3",
        21 => "2, 3",
        22 => "1, 2",
        23 => "1",
        24 => "1",
        25 => "1",
        26 => "2",
        27 => "2",
        28 => "1, 2",
        29 => "1, 2",
        30 => "1",
        31 => "2, 3",
        32 => "1",
        33 => "1",
        34 => "1",
        35 => "1",
        36 => "1",
        37 => "1",
        38 => "0+",
        39 => "1+",
        40 => "1+",
        41 => "1",
        42 => "1",
        43 => "1",
        44 => "2",
        45 => "2, 3, 4",
        46 => "1",
        47 => "1",
        48 => "1",
        49 => "2",
        50 => "1",
        51 => "1",
        52 => "2+",
        53 => "2+",
        54 => "2+",
        55 => "1",
        56 => "2+",
        57 => "2+",
        58 => "2+",
        59 => "2",
        60 => "2",
        61 => "1",
        62 => "1",
        63 => "1",
        64 => "1",
        65 => "1",
        66 => "1",
        67 => "1",
        68 => "1",
        69 => "1",
        70 => "1",
        71 => "1",
        72 => "1",
        73 => "1",
        74 => "1",
        75 => "1",
        76 => "1",
        77 => "1",
        78 => "1",
        79 => "1",
        80 => "1",
        81 => "1",
        82 => "1",
        83 => "1",
        84 => "2",
        85 => "1",
        86 => "0, 1, 2",
        87 => "1",
        88 => "1",
        89 => "1+",
        90 => "1",
        91 => "1",
        92 => "1",
        93 => "1",
        94 => "1",
        95 => "1",
        96 => "1",
        97 => "1+",
        98 => "1",
        99 => "1",
        100 => "1",
        101 => "1",
        _ => "1",
    }
}

/// The group of the builtin with the given id.
pub fn builtin_group(id: usize) -> (r: BuiltinGroup)
    requires
        id < BUILTIN_COUNT,
    ensures
        r == builtin_group_v(id as int),
{
    match id {
        0 => BuiltinGroup::CoreIo,
        1 => BuiltinGroup::CoreIo,
        2 => BuiltinGroup::CoreIo,
        3 => BuiltinGroup::CorePure,
        4 => BuiltinGroup::CorePure,
        5 => BuiltinGroup::CorePure,
        6 => BuiltinGroup::CorePure,
        7 => BuiltinGroup::CorePure,
        8 => BuiltinGroup::CorePure,
        9 => BuiltinGroup::CorePure,
        10 => BuiltinGroup::CorePure,
        11 => BuiltinGroup::Exec,
        12 => BuiltinGroup::Dict,
        13 => BuiltinGroup::Dict,
        14 => BuiltinGroup::Dict,
        15 => BuiltinGroup::Dict,
        16 => BuiltinGroup::HigherOrder,
        17 => BuiltinGroup::HigherOrder,
        18 => BuiltinGroup::HigherOrder,
        19 => BuiltinGroup::HigherOrder,
        20 => BuiltinGroup::Encoding,
        21 => BuiltinGroup::Encoding,
        22 => BuiltinGroup::FileIo,
        23 => BuiltinGroup::FileIo,
        24 => BuiltinGroup::FileIo,
        25 => BuiltinGroup::FileIo,
        26 => BuiltinGroup::FileIo,
        27 => BuiltinGroup::FileIo,
        28 => BuiltinGroup::FileIo,
        29 => BuiltinGroup::FileIo,
        30 => BuiltinGroup::FileIo,
        31 => BuiltinGroup::FileIo,
        32 => BuiltinGroup::FileIo,
        33 => BuiltinGroup::FileIo,
        34 => BuiltinGroup::Intrinsic,
        35 => BuiltinGroup::List,
        36 => BuiltinGroup::List,
        37 => BuiltinGroup::List,
        38 => BuiltinGroup::List,
        39 => BuiltinGroup::List,
        40 => BuiltinGroup::List,
        41 => BuiltinGroup::List,
        42 => BuiltinGroup::List,
        43 => BuiltinGroup::List,
        44 => BuiltinGroup::List,
        45 => BuiltinGroup::List,
        46 => BuiltinGroup::ListGen,
        47 => BuiltinGroup::ListGen,
        48 => BuiltinGroup::ListGen,
        49 => BuiltinGroup::ListGen,
        50 => BuiltinGroup::ListGen,
        51 => BuiltinGroup::Logical,
        52 => BuiltinGroup::Logical,
        53 => BuiltinGroup::Logical,
        54 => BuiltinGroup::Logical,
        55 => BuiltinGroup::Logical,
        56 => BuiltinGroup::Logical,
        57 => BuiltinGroup::Logical,
        58 => BuiltinGroup::Logical,
        59 => BuiltinGroup::Logical,
        60 => BuiltinGroup::Logical,
        61 => BuiltinGroup::Math,
        62 => BuiltinGroup::Math,
        63 => BuiltinGroup::Math,
        64 => BuiltinGroup::Math,
        65 => BuiltinGroup::Math,
        66 => BuiltinGroup::Math,
        67 => BuiltinGroup::Math,
        68 => BuiltinGroup::Math,
        69 => BuiltinGroup::Math,
        70 => BuiltinGroup::Math,
        71 => BuiltinGroup::Math,
        72 => BuiltinGroup::Math,
        73 => BuiltinGroup::Math,
        74 => BuiltinGroup::Math,
        75 => BuiltinGroup::Math,
        76 => BuiltinGroup::Math,
        77 => BuiltinGroup::Math,
        78 => BuiltinGroup::Math,
        79 => BuiltinGroup::Math,
        80 => BuiltinGroup::Math,
        81 => BuiltinGroup::Math,
        82 => BuiltinGroup::Math,
        83 => BuiltinGroup::Math,
        84 => BuiltinGroup::Math,
        85 => BuiltinGroup::Math,
        86 => BuiltinGroup::Rand,
        87 => BuiltinGroup::Mat,
        88 => BuiltinGroup::Str,
        89 => BuiltinGroup::Intrinsic,
        90 => BuiltinGroup::Str,
        91 => BuiltinGroup::Str,
        92 => BuiltinGroup::Str,
        93 => BuiltinGroup::Str,
        94 => BuiltinGroup::Str,
        95 => BuiltinGroup::Str,
        96 => BuiltinGroup::Viz,
        97 => BuiltinGroup::Viz,
        98 => BuiltinGroup::Type,
        99 => BuiltinGroup::Type,
        100 => BuiltinGroup::Type,
        101 => BuiltinGroup::Type,
        _ => BuiltinGroup::Type,
    }
}

} // verus!
