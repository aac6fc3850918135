//! Debug flags: a small set of named bits, parsed from a command-line specification.

use vstd::prelude::*;
use crate::text::{
    chars_of, append_chars, append_str, trim_chars, split_chars, split_v, trim_v, string_from_chars,
    chars_eq_str, u64_to_decimal, decimal_digits, is_digit,
};
use crate::bigint::digits_value;
use crate::builtins::system::padded;
use crate::desserts::daydream::join_v;

verus! {

/// A set of debug flags, one bit each.
#[derive(Debug, Clone, Copy, PartialEq, Eq, Structural)]
pub struct DebugFlags {
    pub bits: u8,
}

/// The bit of the token dump.
pub const TOKEN: u8 = 1;

/// The bit of the syntax tree dump.
pub const AST: u8 = 2;

/// The bit of the instruction dump.
pub const INST: u8 = 4;

/// The bit of the first debugger level.
pub const WQDB_1: u8 = 8;

/// The bit of the second debugger level.
pub const WQDB_2: u8 = 16;

/// The names of the flags, in display order.
pub open spec fn flag_names() -> Seq<Seq<char>> {
    seq!["token"@, "ast"@, "inst"@, "wqdb-1"@, "wqdb-2"@]
}

/// The bits of the flags, in display order.
pub open spec fn flag_bits() -> Seq<u8> {
    seq![TOKEN, AST, INST, WQDB_1, WQDB_2]
}

/// The bit of a flag name, if it is one.
pub open spec fn bit_for_name_v(name: Seq<char>) -> Option<u8> {
    if name == "token"@ {
        Some(TOKEN)
    } else if name == "ast"@ {
        Some(AST)
    } else if name == "inst"@ {
        Some(INST)
    } else if name == "wqdb-1"@ {
        Some(WQDB_1)
    } else if name == "wqdb-2"@ {
        Some(WQDB_2)
    } else {
        None
    }
}

/// The flags of a numeric alias: 0 none, 1 inst, 2 adds ast, 3 adds token, 4 all five.
pub open spec fn alias_bits(level: u8) -> Option<u8> {
    if level == 0 {
        Some(0u8)
    } else if level == 1 {
        Some(INST)
    } else if level == 2 {
        Some((INST | AST) as u8)
    } else if level == 3 {
        Some((INST | AST | TOKEN) as u8)
    } else if level == 4 {
        Some((INST | AST | TOKEN | WQDB_1 | WQDB_2) as u8)
    } else {
        None
    }
}

/// The union of the bits of the known names in a list.
pub open spec fn names_bits(names: Seq<Seq<char>>) -> u8
    decreases names.len(),
{
    if names.len() == 0 {
        0
    } else {
        let b = names_bits(names.drop_last());
        match bit_for_name_v(names.last()) {
            Some(bit) => b | bit,
            None => b,
        }
    }
}

/// The names of the first `k` flags (in display order) that are set.
pub open spec fn display_prefix(bits: u8, k: int) -> Seq<Seq<char>>
    decreases k,
{
    if k <= 0 {
        Seq::empty()
    } else {
        let p = display_prefix(bits, k - 1);
        if bits & flag_bits()[k - 1] != 0 {
            p.push(flag_names()[k - 1])
        } else {
            p
        }
    }
}

/// The names of the flags that are set, in display order.
pub open spec fn display_names_v(bits: u8) -> Seq<Seq<char>> {
    display_prefix(bits, 5)
}

/// Reads the comma-separated flag names of a specification, from the left: blank pieces are
/// skipped, and the first piece that is no flag name is the error.
pub open spec fn parse_names_v(parts: Seq<Seq<char>>) -> Result<u8, Seq<char>>
    decreases parts.len(),
{
    if parts.len() == 0 {
        Ok(0u8)
    } else {
        match parse_names_v(parts.drop_last()) {
            Err(e) => Err(e),
            Ok(b) => {
                let t = trim_v(parts.last());
                if t.len() == 0 {
                    Ok(b)
                } else {
                    match bit_for_name_v(t) {
                        Some(bit) => Ok(b | bit),
                        None => Err(t),
                    }
                }
            },
        }
    }
}

/// A string without a leading `+`.
pub open spec fn unsigned_body(s: Seq<char>) -> Seq<char> {
    if s.len() > 0 && s[0] == '+' {
        s.drop_first()
    } else {
        s
    }
}

/// Whether every character of a string is a decimal digit.
pub open spec fn all_digits(s: Seq<char>) -> bool {
    forall|i: int| 0 <= i < s.len() ==> #[trigger] is_digit(s[i])
}

/// What `str::parse::<u8>` gives: an optional `+`, then decimal digits of a value below 256.
pub open spec fn parse_u8_v(s: Seq<char>) -> Option<u8> {
    let body = unsigned_body(s);
    if body.len() > 0 && all_digits(body) && digits_value(body, 10) <= 255 {
        Some(digits_value(body, 10) as u8)
    } else {
        None
    }
}

/// The message for an alias out of range.
pub open spec fn alias_error_v(level: u8) -> Seq<char> {
    "invalid debug alias '"@ + decimal_digits(level as nat) + "'"@
}

/// The message for an unknown flag name.
pub open spec fn flag_error_v(name: Seq<char>) -> Seq<char> {
    "invalid debug flag '"@ + name + "'"@
}

/// What parsing a debug specification gives.
pub open spec fn parse_spec_v(spec: Seq<char>) -> Result<u8, Seq<char>> {
    if spec.len() == 0 {
        Ok(INST)
    } else {
        match parse_u8_v(spec) {
            Some(level) => match alias_bits(level) {
                Some(b) => Ok(b),
                None => Err(alias_error_v(level)),
            },
            None => match parse_names_v(split_v(spec, ',')) {
                Ok(b) => Ok(b),
                Err(name) => Err(flag_error_v(name)),
            },
        }
    }
}

impl Default for DebugFlags {
    fn default() -> (r: DebugFlags)
        ensures
            r.bits == 0,
    {
        DebugFlags { bits: 0 }
    }
}

impl DebugFlags {
    /// No flag set.
    pub fn empty() -> (r: DebugFlags)
        ensures
            r.bits == 0,
    {
        DebugFlags { bits: 0 }
    }

    /// The flags with the given bits.
    pub fn from_bits(bits: u8) -> (r: DebugFlags)
        ensures
            r.bits == bits,
    {
        DebugFlags { bits }
    }

    /// The bits of the flags.
    pub fn bits(self) -> (r: u8)
        ensures
            r == self.bits,
    {
        self.bits
    }

    /// Whether no flag is set.
    pub fn is_empty(self) -> (r: bool)
        ensures
            r == (self.bits == 0),
    {
        self.bits == 0
    }

    /// Whether any bit of `bit` is set.
    pub fn contains(self, bit: u8) -> (r: bool)
        ensures
            r == (self.bits & bit != 0),
    {
        (self.bits & bit) != 0
    }

    /// Sets the bits of `bit`.
    pub fn insert(&mut self, bit: u8)
        ensures
            final(self).bits == old(self).bits | bit,
    {
        self.bits = self.bits | bit;
    }

    /// Clears the bits of `bit`.
    pub fn remove(&mut self, bit: u8)
        ensures
            final(self).bits == old(self).bits & !bit,
    {
        self.bits = self.bits & !bit;
    }

    /// The flags set in either.
    pub fn union(self, other: DebugFlags) -> (r: DebugFlags)
        ensures
            r.bits == self.bits | other.bits,
    {
        DebugFlags { bits: self.bits | other.bits }
    }

    /// The flags of a numeric alias (0 to 4); `None` above 4.
    pub fn from_alias(level: u8) -> (r: Option<DebugFlags>)
        ensures
            r matches Some(f) ==> alias_bits(level) == Some(f.bits),
            r is None <==> alias_bits(level) is None,
    {
        if level == 0 {
            Some(DebugFlags { bits: 0 })
        } else if level == 1 {
            Some(DebugFlags { bits: INST })
        } else if level == 2 {
            Some(DebugFlags { bits: INST | AST })
        } else if level == 3 {
            Some(DebugFlags { bits: INST | AST | TOKEN })
        } else if level == 4 {
            Some(DebugFlags { bits: INST | AST | TOKEN | WQDB_1 | WQDB_2 })
        } else {
            None
        }
    }

    /// The flags named in a list; names that are no flag are ignored.
    pub fn from_names(names: &[&str]) -> (r: DebugFlags)
        ensures
            r.bits == names_bits(Seq::new(names@.len(), |i: int| names@[i]@)),
    {
        let ghost ns = Seq::new(names@.len(), |i: int| names@[i]@);
        let mut flags = DebugFlags::empty();
        let mut i: usize = 0;
        while i < names.len()
            invariant
                i <= names@.len(),
                ns == Seq::new(names@.len(), |i: int| names@[i]@),
                flags.bits == names_bits(ns.take(i as int)),
            decreases names.len() - i,
        {
            assert(ns.take(i + 1).drop_last() =~= ns.take(i as int));
            match bit_for_name(names[i]) {
                Some(bit) => flags.insert(bit),
                None => {},
            }
            i += 1;
        }
        assert(ns.take(names@.len() as int) =~= ns);
        flags
    }

    /// The names of the flags that are set, in the order token, ast, inst, wqdb-1, wqdb-2.
    pub fn display_names(self) -> (r: Vec<&'static str>)
        ensures
            r@.len() == display_names_v(self.bits).len(),
            forall|i: int| 0 <= i < r@.len() ==> (#[trigger] r@[i])@ == display_names_v(self.bits)[i],
    {
        let mut names: Vec<&'static str> = Vec::new();
        let mut k: usize = 0;
        while k < 5
            invariant
                k <= 5,
                names@.len() == display_prefix(self.bits, k as int).len(),
                forall|i: int| 0 <= i < names@.len() ==> (#[trigger] names@[i])@ == display_prefix(self.bits, k as int)[i],
            decreases 5 - k,
        {
            let (name, bit) = flag_entry(k);
            if self.contains(bit) {
                names.push(name);
            }
            k += 1;
        }
        names
    }

    /// Parses a debug specification: empty means `inst`; a number is an alias (0 to 4);
    /// otherwise a comma-separated list of flag names, blanks around names ignored.
    pub fn parse(spec: &str) -> (r: Result<DebugFlags, String>)
        ensures
            match parse_spec_v(spec@) {
                Ok(b) => r matches Ok(f) && f.bits == b,
                Err(m) => r matches Err(e) && e@ == m,
            },
    {
        let v = chars_of(spec);
        if v.len() == 0 {
            return Ok(DebugFlags { bits: INST });
        }
        match parse_u8(&v) {
            Some(level) => {
                match DebugFlags::from_alias(level) {
                    Some(f) => {
                        return Ok(f);
                    },
                    None => {
                        let mut m: Vec<char> = Vec::new();
                        append_str(&mut m, "invalid debug alias '");
                        let ds = u64_to_decimal(level as u64);
                        append_chars(&mut m, &ds);
                        append_str(&mut m, "'");
                        return Err(string_from_chars(m.as_slice()));
                    },
                }
            },
            None => {},
        }
        let parts = split_chars(&v, ',');
        let mut flags = DebugFlags::empty();
        let mut i: usize = 0;
        while i < parts.len()
            invariant
                i <= parts@.len(),
                v@ == spec@,
                v@.len() > 0,
                parse_u8_v(v@) is None,
                parts@.len() == split_v(v@, ',').len(),
                forall|k: int| 0 <= k < parts@.len() ==> (#[trigger] parts@[k])@ == split_v(v@, ',')[k],
                parse_names_v(split_v(v@, ',').take(i as int)) == Ok::<u8, Seq<char>>(flags.bits),
            decreases parts.len() - i,
        {
            let ghost ps = split_v(v@, ',');
            assert(ps.take(i + 1).drop_last() =~= ps.take(i as int));
            assert(ps.take(i + 1).last() == parts@[i as int]@);
            let name = trim_chars(&parts[i]);
            if name.len() > 0 {
                match bit_for_chars(&name) {
                    Some(bit) => flags.insert(bit),
                    None => {
                        let mut m: Vec<char> = Vec::new();
                        append_str(&mut m, "invalid debug flag '");
                        append_chars(&mut m, &name);
                        append_str(&mut m, "'");
                        proof {
                            assert(m@ =~= flag_error_v(name@));
                            assert(parse_names_v(ps.take(i + 1)) == Err::<u8, Seq<char>>(name@));
                            lemma_parse_names_err_stays(ps, i as int + 1, name@);
                            assert(ps.take(ps.len() as int) =~= ps);
                            assert(parse_spec_v(spec@) == Err::<u8, Seq<char>>(flag_error_v(name@)));
                        }
                        return Err(string_from_chars(m.as_slice()));
                    },
                }
            }
            i += 1;
        }
        proof {
            assert(split_v(v@, ',').take(parts@.len() as int) =~= split_v(v@, ','));
        }
        Ok(flags)
    }
}

/// The name and bit of the `k`-th flag in display order.
fn flag_entry(k: usize) -> (r: (&'static str, u8))
    requires
        k < 5,
    ensures
        r.0@ == flag_names()[k as int],
        r.1 == flag_bits()[k as int],
{
    if k == 0 {
        ("token", TOKEN)
    } else if k == 1 {
        ("ast", AST)
    } else if k == 2 {
        ("inst", INST)
    } else if k == 3 {
        ("wqdb-1", WQDB_1)
    } else {
        ("wqdb-2", WQDB_2)
    }
}

/// Once the names read so far hold an error, reading more keeps that error.
proof fn lemma_parse_names_err_stays(ps: Seq<Seq<char>>, i: int, e: Seq<char>)
    requires
        0 <= i <= ps.len(),
        parse_names_v(ps.take(i)) == Err::<u8, Seq<char>>(e),
    ensures
        parse_names_v(ps) == Err::<u8, Seq<char>>(e),
    decreases ps.len() - i,
{
    if i < ps.len() {
        assert(ps.take(i + 1).drop_last() =~= ps.take(i));
        lemma_parse_names_err_stays(ps, i + 1, e);
    } else {
        assert(ps.take(i) =~= ps);
    }
}

/// The first index from `start` on that holds no decimal digit.
fn first_non_digit(v: &Vec<char>, start: usize) -> (r: Option<usize>)
    requires
        start <= v.len(),
    ensures
        r matches Some(k) ==> start <= k < v.len() && !is_digit(v@[k as int]),
        r is None ==> forall|k: int| start <= k < v.len() ==> #[trigger] is_digit(v@[k]),
{
    let mut i = start;
    while i < v.len()
        invariant
            start <= i <= v.len(),
            forall|k: int| start <= k < i ==> #[trigger] is_digit(v@[k]),
        decreases v.len() - i,
    {
        let c = v[i];
        if !('0' <= c && c <= '9') {
            return Some(i);
        }
        i += 1;
    }
    None
}

/// The value of the decimal digits of `v` from `start` on, or 256 where that is larger.
fn capped_decimal(v: &Vec<char>, start: usize) -> (acc: u32)
    requires
        start <= v.len(),
        forall|k: int| start <= k < v.len() ==> #[trigger] is_digit(v@[k]),
    ensures
        acc as int == if digits_value(v@.subrange(start as int, v@.len() as int), 10) < 256 {
            digits_value(v@.subrange(start as int, v@.len() as int), 10)
        } else {
            256
        },
{
    let mut acc: u32 = 0;
    let mut i: usize = start;
    while i < v.len()
        invariant
            start <= i <= v.len(),
            forall|k: int| start <= k < v.len() ==> #[trigger] is_digit(v@[k]),
            acc as int == if digits_value(v@.subrange(start as int, i as int), 10) < 256 {
                digits_value(v@.subrange(start as int, i as int), 10)
            } else {
                256
            },
            digits_value(v@.subrange(start as int, i as int), 10) >= 0,
        decreases v.len() - i,
    {
        let c = v[i];
        assert(is_digit(v@[i as int]));
        let d: u32 = (c as u32) - ('0' as u32);
        proof {
            let pre = v@.subrange(start as int, i as int);
            let nxt = v@.subrange(start as int, i + 1);
            assert(nxt.drop_last() =~= pre);
            assert(nxt.last() == c);
            assert(digits_value(nxt, 10) == digits_value(pre, 10) * 10 + d);
        }
        if acc >= 256 {
            acc = 256;
        } else {
            let n: u32 = acc * 10 + d;
            acc = if n >= 256 { 256 } else { n };
        }
        i += 1;
    }
    acc
}

/// Reads an unsigned byte as `str::parse::<u8>` does.
pub fn parse_u8(v: &Vec<char>) -> (r: Option<u8>)
    ensures
        r == parse_u8_v(v@),
{
    let start: usize = if v.len() > 0 && v[0] == '+' { 1 } else { 0 };
    let ghost body = v@.subrange(start as int, v@.len() as int);
    proof {
        if v@.len() > 0 && v@[0] == '+' {
            assert(body =~= v@.drop_first());
        } else {
            assert(body =~= v@);
        }
    }
    if start >= v.len() {
        assert(body.len() == 0);
        return None;
    }
    match first_non_digit(v, start) {
        Some(k) => {
            assert(body[k - start] == v@[k as int]);
            assert(!is_digit(body[k - start]));
            assert(!all_digits(body));
            return None;
        },
        None => {},
    }
    assert forall|k: int| 0 <= k < body.len() implies #[trigger] is_digit(body[k]) by {
        assert(body[k] == v@[start + k]);
    }
    let acc = capped_decimal(v, start);
    if acc >= 256 {
        None
    } else {
        Some(acc as u8)
    }
}

/// The bit of a flag name given as characters.
fn bit_for_chars(name: &Vec<char>) -> (r: Option<u8>)
    ensures
        r == bit_for_name_v(name@),
{
    if chars_eq_str(name, "token") {
        Some(TOKEN)
    } else if chars_eq_str(name, "ast") {
        Some(AST)
    } else if chars_eq_str(name, "inst") {
        Some(INST)
    } else if chars_eq_str(name, "wqdb-1") {
        Some(WQDB_1)
    } else if chars_eq_str(name, "wqdb-2") {
        Some(WQDB_2)
    } else {
        None
    }
}

/// The bit of a flag name, if it is one.
pub fn bit_for_name(name: &str) -> (r: Option<u8>)
    ensures
        r == bit_for_name_v(name@),
{
    let v = chars_of(name);
    bit_for_chars(&v)
}

/// Whether a name is a flag name.
pub fn is_known_debug_name(name: &str) -> (r: bool)
    ensures
        r == (bit_for_name_v(name@) is Some),
{
    bit_for_name(name).is_some()
}

proof fn bv_insert(x: u8, bit: u8, other: u8)
    by (bit_vector)
    requires
        bit != 0,
    ensures
        (x | bit) & bit != 0,
        other & bit == 0 ==> (((x | bit) & other != 0) == (x & other != 0)),
{
}

proof fn bv_remove(x: u8, bit: u8, other: u8)
    by (bit_vector)
    ensures
        (x & !bit) & bit == 0,
        other & bit == 0 ==> (((x & !bit) & other != 0) == (x & other != 0)),
{
}

proof fn bv_union(x: u8, y: u8, bit: u8)
    by (bit_vector)
    ensures
        ((x | y) & bit != 0) == ((x & bit != 0) || (y & bit != 0)),
{
}

/// Inserting a flag sets it, and leaves every flag disjoint from it as it was.
pub proof fn law_insert_contains(f: DebugFlags, bit: u8, other: u8)
    requires
        bit != 0,
    ensures
        (f.bits | bit) & bit != 0,
        other & bit == 0 ==> (((f.bits | bit) & other != 0) == (f.bits & other != 0)),
{
    bv_insert(f.bits, bit, other);
}

/// Removing a flag clears it, and leaves every flag disjoint from it as it was.
pub proof fn law_remove_contains(f: DebugFlags, bit: u8, other: u8)
    ensures
        (f.bits & !bit) & bit == 0,
        other & bit == 0 ==> (((f.bits & !bit) & other != 0) == (f.bits & other != 0)),
{
    bv_remove(f.bits, bit, other);
}

/// A flag is in a union exactly when it is in one of the two sides.
pub proof fn law_union_contains(a: DebugFlags, b: DebugFlags, bit: u8)
    ensures
        ((a.bits | b.bits) & bit != 0) == ((a.bits & bit != 0) || (b.bits & bit != 0)),
{
    bv_union(a.bits, b.bits, bit);
}

/// Each numeric alias keeps the flags of the one below it, and the aliases end at 4.
pub proof fn law_alias_levels_grow(level: u8)
    ensures
        level <= 4 ==> alias_bits(level) is Some,
        level > 4 ==> alias_bits(level) is None,
        1 <= level <= 4 ==> alias_bits((level - 1) as u8)->0 & alias_bits(level)->0
            == alias_bits((level - 1) as u8)->0,
{
    assert((4u8 | 2u8) == 6u8) by (bit_vector);
    assert((4u8 | 2u8 | 1u8) == 7u8) by (bit_vector);
    assert((4u8 | 2u8 | 1u8 | 8u8 | 16u8) == 31u8) by (bit_vector);
    assert(0u8 & 4u8 == 0u8) by (bit_vector);
    assert(4u8 & 6u8 == 4u8) by (bit_vector);
    assert(6u8 & 7u8 == 6u8) by (bit_vector);
    assert(7u8 & 31u8 == 7u8) by (bit_vector);
}

/// The text of a set of flags: their names joined by commas, `off` for none.
pub open spec fn flags_text_v(bits: u8) -> Seq<char> {
    let ns = display_names_v(bits);
    if ns.len() == 0 {
        "off"@
    } else {
        join_v(ns, ","@)
    }
}

/// The text of a set of flags.
pub fn flags_text(f: DebugFlags) -> (r: Vec<char>)
    ensures
        r@ == flags_text_v(f.bits),
{
    let names = f.display_names();
    if names.len() == 0 {
        return chars_of("off");
    }
    let mut out: Vec<char> = Vec::new();
    let ghost ns = display_names_v(f.bits);
    let mut i: usize = 0;
    while i < names.len()
        invariant
            names@.len() == ns.len(),
            forall|q: int| 0 <= q < names@.len() ==> (#[trigger] names@[q])@ == ns[q],
            i <= names@.len(),
            out@ == join_v(ns.take(i as int), ","@),
        decreases names.len() - i,
    {
        assert(ns.take(i + 1).drop_last() =~= ns.take(i as int));
        if i > 0 {
            append_str(&mut out, ",");
        } else {
            assert(ns.take(i as int).len() == 0);
        }
        append_str(&mut out, names[i]);
        i += 1;
    }
    assert(ns.take(names@.len() as int) =~= ns);
    out
}

/// The rows of the help table of debug specifications: the active flags, then each alias
/// with the flags it stands for.
pub open spec fn help_rows(bits: u8) -> Seq<(Seq<char>, Seq<char>)> {
    seq![
        ("active"@, flags_text_v(bits)),
        ("0"@, "off"@),
        ("1"@, "inst"@),
        ("2"@, "inst,ast"@),
        ("3"@, "inst,ast,token"@),
        ("4"@, "inst,ast,token,wqdb-1,wqdb-2"@)
    ]
}

/// The widest of the left (`right == false`) or right cells of `rows[..k]`.
pub open spec fn col_max(rows: Seq<(Seq<char>, Seq<char>)>, right: bool, k: int) -> nat
    decreases k,
{
    if k <= 0 || k > rows.len() {
        0
    } else {
        let m = col_max(rows, right, k - 1);
        let c = if right { rows[k - 1].1.len() } else { rows[k - 1].0.len() };
        if c > m {
            c
        } else {
            m
        }
    }
}

/// `n` dashes.
pub open spec fn dashes(n: nat) -> Seq<char> {
    Seq::new(n, |i: int| '-')
}

/// A rule of the table for column widths `l` and `r`.
pub open spec fn rule_v(l: nat, r: nat) -> Seq<char> {
    "+-"@ + dashes(l) + "-+-"@ + dashes(r) + "-+"@
}

/// A row of the table for column widths `l` and `r`.
pub open spec fn table_row_v(a: Seq<char>, b: Seq<char>, l: nat, r: nat) -> Seq<char> {
    "| "@ + padded(a, l) + " | "@ + padded(b, r) + " |"@
}

/// The rows `rows[..k]`, each followed by a line feed.
pub open spec fn table_body_v(rows: Seq<(Seq<char>, Seq<char>)>, l: nat, r: nat, k: int) -> Seq<char>
    decreases k,
{
    if k <= 0 || k > rows.len() {
        Seq::empty()
    } else {
        table_body_v(rows, l, r, k - 1) + table_row_v(rows[k - 1].0, rows[k - 1].1, l, r) + "\n"@
    }
}

/// The help table of debug specifications: a rule, the header row, a rule, the rows, and a
/// closing rule, the columns as wide as their widest cell.
pub open spec fn debug_help_table_v(bits: u8) -> Seq<char> {
    let rows = help_rows(bits);
    let l = col_max(rows, false, rows.len() as int);
    let r = col_max(rows, true, rows.len() as int);
    rule_v(l, r) + "\n"@ + table_row_v("spec"@, "flags"@, l, r) + "\n"@ + rule_v(l, r) + "\n"@ + table_body_v(
        rows,
        l,
        r,
        rows.len() as int,
    ) + rule_v(l, r)
}

fn push_dashes(out: &mut Vec<char>, n: usize)
    ensures
        final(out)@ == old(out)@ + dashes(n as nat),
{
    let mut k: usize = 0;
    while k < n
        invariant
            k <= n,
            out@ == old(out)@ + dashes(k as nat),
        decreases n - k,
    {
        out.push('-');
        assert(dashes((k + 1) as nat) =~= dashes(k as nat).push('-'));
        k += 1;
    }
}

fn push_padded(out: &mut Vec<char>, cell: &Vec<char>, w: usize)
    ensures
        final(out)@ == old(out)@ + padded(cell@, w as nat),
{
    append_chars(out, cell);
    let mut k: usize = cell.len();
    if k < w {
        while k < w
            invariant
                cell@.len() <= k <= w,
                out@ == old(out)@ + cell@ + Seq::new((k - cell@.len()) as nat, |i: int| ' '),
            decreases w - k,
        {
            out.push(' ');
            assert(Seq::new((k + 1 - cell@.len()) as nat, |i: int| ' ') =~= Seq::new(
                (k - cell@.len()) as nat,
                |i: int| ' ',
            ).push(' '));
            k += 1;
        }
        assert(out@ =~= old(out)@ + padded(cell@, w as nat));
    } else {
        assert(out@ =~= old(out)@ + padded(cell@, w as nat));
    }
}

fn push_rule(out: &mut Vec<char>, l: usize, r: usize)
    ensures
        final(out)@ == old(out)@ + rule_v(l as nat, r as nat),
{
    append_str(out, "+-");
    push_dashes(out, l);
    append_str(out, "-+-");
    push_dashes(out, r);
    append_str(out, "-+");
    assert(out@ =~= old(out)@ + rule_v(l as nat, r as nat));
}

fn push_row(out: &mut Vec<char>, a: &Vec<char>, b: &Vec<char>, l: usize, r: usize)
    ensures
        final(out)@ == old(out)@ + table_row_v(a@, b@, l as nat, r as nat),
{
    append_str(out, "| ");
    push_padded(out, a, l);
    append_str(out, " | ");
    push_padded(out, b, r);
    append_str(out, " |");
    assert(out@ =~= old(out)@ + table_row_v(a@, b@, l as nat, r as nat));
}

/// The help table of debug specifications, with the active flags in its first row.
pub fn debug_help_table(active: DebugFlags) -> (r: String)
    ensures
        r@ == debug_help_table_v(active.bits),
{
    let mut rows: Vec<(Vec<char>, Vec<char>)> = Vec::new();
    rows.push((chars_of("active"), flags_text(active)));
    rows.push((chars_of("0"), chars_of("off")));
    rows.push((chars_of("1"), chars_of("inst")));
    rows.push((chars_of("2"), chars_of("inst,ast")));
    rows.push((chars_of("3"), chars_of("inst,ast,token")));
    rows.push((chars_of("4"), chars_of("inst,ast,token,wqdb-1,wqdb-2")));
    let ghost rv = rows@.map_values(|p: (Vec<char>, Vec<char>)| (p.0@, p.1@));
    assert(rv =~= help_rows(active.bits));
    let mut l: usize = 0;
    let mut r: usize = 0;
    let mut i: usize = 0;
    while i < rows.len()
        invariant
            rv == rows@.map_values(|p: (Vec<char>, Vec<char>)| (p.0@, p.1@)),
            i <= rows@.len(),
            l == col_max(rv, false, i as int),
            r == col_max(rv, true, i as int),
        decreases rows.len() - i,
    {
        assert(rv[i as int] == (rows@[i as int].0@, rows@[i as int].1@));
        if rows[i].0.len() > l {
            l = rows[i].0.len();
        }
        if rows[i].1.len() > r {
            r = rows[i].1.len();
        }
        i += 1;
    }
    let mut out: Vec<char> = Vec::new();
    push_rule(&mut out, l, r);
    append_str(&mut out, "\n");
    push_row(&mut out, &chars_of("spec"), &chars_of("flags"), l, r);
    append_str(&mut out, "\n");
    push_rule(&mut out, l, r);
    append_str(&mut out, "\n");
    let ghost head = out@;
    let mut k: usize = 0;
    while k < rows.len()
        invariant
            rv == rows@.map_values(|p: (Vec<char>, Vec<char>)| (p.0@, p.1@)),
            k <= rows@.len(),
            out@ == head + table_body_v(rv, l as nat, r as nat, k as int),
        decreases rows.len() - k,
    {
        assert(rv[k as int] == (rows@[k as int].0@, rows@[k as int].1@));
        push_row(&mut out, &rows[k].0, &rows[k].1, l, r);
        append_str(&mut out, "\n");
        assert(out@ =~= head + table_body_v(rv, l as nat, r as nat, k + 1));
        k += 1;
    }
    push_rule(&mut out, l, r);
    assert(out@ =~= debug_help_table_v(active.bits));
    string_from_chars(out.as_slice())
}

proof fn lemma_names_bits_push(p: Seq<Seq<char>>, n: Seq<char>)
    ensures
        names_bits(p.push(n)) == match bit_for_name_v(n) {
            Some(bit) => names_bits(p) | bit,
            None => names_bits(p),
        },
{
    assert(p.push(n).drop_last() =~= p);
}

/// Reading back the names that are shown for some flags gives the same flags, for flags
/// within the five that exist.
pub proof fn law_names_round_trip(bits: u8)
    requires
        bits & !31u8 == 0,
    ensures
        names_bits(display_names_v(bits)) == bits,
{
    reveal_strlit("token");
    reveal_strlit("ast");
    reveal_strlit("inst");
    reveal_strlit("wqdb-1");
    reveal_strlit("wqdb-2");
    assert("wqdb-1"@[5] != "wqdb-2"@[5]);
    assert("ast"@ != "token"@ && "inst"@ != "token"@ && "inst"@ != "ast"@) by {
        assert("ast"@.len() != "token"@.len() && "inst"@.len() != "token"@.len() && "inst"@.len() != "ast"@.len());
    }
    assert("wqdb-1"@ != "token"@ && "wqdb-1"@ != "ast"@ && "wqdb-1"@ != "inst"@) by {
        assert("wqdb-1"@.len() != "token"@.len() && "wqdb-1"@.len() != "ast"@.len() && "wqdb-1"@.len() != "inst"@.len());
    }
    assert("wqdb-2"@ != "token"@ && "wqdb-2"@ != "ast"@ && "wqdb-2"@ != "inst"@ && "wqdb-2"@ != "wqdb-1"@) by {
        assert("wqdb-2"@.len() != "token"@.len() && "wqdb-2"@.len() != "ast"@.len() && "wqdb-2"@.len() != "inst"@.len());
    }
    assert(bit_for_name_v(flag_names()[0]) == Some(TOKEN));
    assert(bit_for_name_v(flag_names()[1]) == Some(AST));
    assert(bit_for_name_v(flag_names()[2]) == Some(INST));
    assert(bit_for_name_v(flag_names()[3]) == Some(WQDB_1));
    assert(bit_for_name_v(flag_names()[4]) == Some(WQDB_2));
    let p0 = display_prefix(bits, 0);
    let p1 = display_prefix(bits, 1);
    let p2 = display_prefix(bits, 2);
    let p3 = display_prefix(bits, 3);
    let p4 = display_prefix(bits, 4);
    let p5 = display_prefix(bits, 5);
    assert(names_bits(p0) == 0);
    lemma_names_bits_push(p0, flag_names()[0]);
    lemma_names_bits_push(p1, flag_names()[1]);
    lemma_names_bits_push(p2, flag_names()[2]);
    lemma_names_bits_push(p3, flag_names()[3]);
    lemma_names_bits_push(p4, flag_names()[4]);
    assert(names_bits(p1) == bits & 1u8) by {
        assert(bits & 1u8 != 0 ==> 0u8 | 1u8 == bits & 1u8) by (bit_vector);
        assert(bits & 1u8 == 0 ==> 0u8 == bits & 1u8) by (bit_vector);
    }
    assert(names_bits(p2) == bits & 3u8) by {
        assert(bits & 2u8 != 0 ==> (bits & 1u8) | 2u8 == bits & 3u8) by (bit_vector);
        assert(bits & 2u8 == 0 ==> bits & 1u8 == bits & 3u8) by (bit_vector);
    }
    assert(names_bits(p3) == bits & 7u8) by {
        assert(bits & 4u8 != 0 ==> (bits & 3u8) | 4u8 == bits & 7u8) by (bit_vector);
        assert(bits & 4u8 == 0 ==> bits & 3u8 == bits & 7u8) by (bit_vector);
    }
    assert(names_bits(p4) == bits & 15u8) by {
        assert(bits & 8u8 != 0 ==> (bits & 7u8) | 8u8 == bits & 15u8) by (bit_vector);
        assert(bits & 8u8 == 0 ==> bits & 7u8 == bits & 15u8) by (bit_vector);
    }
    assert(names_bits(p5) == bits & 31u8) by {
        assert(bits & 16u8 != 0 ==> (bits & 15u8) | 16u8 == bits & 31u8) by (bit_vector);
        assert(bits & 16u8 == 0 ==> bits & 15u8 == bits & 31u8) by (bit_vector);
    }
    assert(bits & !31u8 == 0 ==> bits & 31u8 == bits) by (bit_vector);
}

} // verus!
