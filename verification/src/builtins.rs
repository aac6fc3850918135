//! The registry of builtins: which of them a preset enables, and lookups by name and id.

pub mod wqerror_helper;
pub mod logical;
pub mod typeb;
pub mod type_builtins;
pub mod wq_type;
pub mod dict;
pub mod core_builtins;
pub mod list;
pub mod mat;
pub mod list_gen;
pub mod str_builtins;
pub mod string;
pub mod encoding;
pub mod system;

use vstd::prelude::*;
use crate::builtin_table::{
    BUILTIN_COUNT, builtin_name, builtin_name_v, builtin_group, builtin_group_v,
};
use crate::bcast::{AtomOp, bc, bc_v, opt_view};
use crate::builtins::wqerror_helper::{builtin_src, builtin_src_v};
use crate::error::{WqError, WqErrorType, WqResult};
use crate::value::{Value, Val, vals};
use crate::text::{decimal_digits, usize_to_decimal, append_chars, append_str,
    chars_of, chars_eq_str, trim_chars, ascii_lower_chars, trim_v, ascii_lower_v, string_from_chars,
};

verus! {

/// The group of a builtin; presets enable or disable whole groups.
#[derive(Copy, Clone, Debug, PartialEq, Eq, Hash, Structural)]
pub enum BuiltinGroup {
    Intrinsic,
    CorePure,
    CoreIo,
    Exec,
    Dict,
    HigherOrder,
    Encoding,
    FileIo,
    List,
    ListGen,
    Logical,
    Math,
    Rand,
    Mat,
    Str,
    Viz,
    Type,
}

/// A named selection of builtin groups.
#[derive(Copy, Clone, Debug, PartialEq, Eq, Hash, Structural)]
pub enum BuiltinPreset {
    All,
    Pure,
    Minimal,
    Constrained,
}

/// Whether a preset enables a group; the intrinsic group is always enabled.
pub open spec fn preset_enables(p: BuiltinPreset, g: BuiltinGroup) -> bool {
    g == BuiltinGroup::Intrinsic || match p {
        BuiltinPreset::All => true,
        BuiltinPreset::Minimal => false,
        BuiltinPreset::Pure => !(g == BuiltinGroup::CoreIo || g == BuiltinGroup::Exec
            || g == BuiltinGroup::FileIo || g == BuiltinGroup::Viz || g == BuiltinGroup::Rand),
        BuiltinPreset::Constrained => !(g == BuiltinGroup::Exec || g == BuiltinGroup::FileIo),
    }
}

/// Which builtins a preset enables, by id.
pub open spec fn preset_table(p: BuiltinPreset) -> Seq<bool> {
    Seq::new(BUILTIN_COUNT as nat, |id: int| preset_enables(p, builtin_group_v(id)))
}

/// The preset a name selects, once trimmed and put in lower case.
pub open spec fn preset_of_name(s: Seq<char>) -> Option<BuiltinPreset> {
    if s == "all"@ {
        Some(BuiltinPreset::All)
    } else if s == "pure"@ {
        Some(BuiltinPreset::Pure)
    } else if s == "minimal"@ || s == "min"@ {
        Some(BuiltinPreset::Minimal)
    } else if s == "constrained"@ || s == "cons"@ {
        Some(BuiltinPreset::Constrained)
    } else {
        None
    }
}

/// The first id at or after `k` whose builtin has the given name.
pub open spec fn find_name_from(name: Seq<char>, k: int) -> Option<int>
    decreases BUILTIN_COUNT - k,
{
    if k < 0 || k >= BUILTIN_COUNT {
        None
    } else if builtin_name_v(k) == name {
        Some(k)
    } else {
        find_name_from(name, k + 1)
    }
}

/// The id of the builtin with the given name.
pub open spec fn name_id_v(name: Seq<char>) -> Option<int> {
    find_name_from(name, 0)
}

/// The names of the builtins among the first `k` ids that a table enables, in id order.
pub open spec fn enabled_names(en: Seq<bool>, k: int) -> Seq<Seq<char>>
    decreases k,
{
    if k <= 0 {
        Seq::empty()
    } else if en[k - 1] {
        enabled_names(en, k - 1).push(builtin_name_v(k - 1))
    } else {
        enabled_names(en, k - 1)
    }
}

/// The names of all builtins, in id order.
pub open spec fn all_names() -> Seq<Seq<char>> {
    Seq::new(BUILTIN_COUNT as nat, |id: int| builtin_name_v(id))
}

impl BuiltinPreset {
    /// The preset names, in the order all, pure, minimal, constrained.
    pub fn names() -> (r: Vec<&'static str>)
        ensures
            r@.len() == 4,
            r@[0]@ == "all"@,
            r@[1]@ == "pure"@,
            r@[2]@ == "minimal"@,
            r@[3]@ == "constrained"@,
    {
        let mut v: Vec<&'static str> = Vec::new();
        v.push("all");
        v.push("pure");
        v.push("minimal");
        v.push("constrained");
        v
    }

    /// The preset a name selects, once trimmed and put in ASCII lower case; `min` and `cons`
    /// are short forms.
    pub fn from_name(name: &str) -> (r: Option<BuiltinPreset>)
        ensures
            r == preset_of_name(ascii_lower_v(trim_v(name@))),
    {
        let v = chars_of(name);
        let t = trim_chars(&v);
        let s = ascii_lower_chars(&t);
        if chars_eq_str(&s, "all") {
            Some(BuiltinPreset::All)
        } else if chars_eq_str(&s, "pure") {
            Some(BuiltinPreset::Pure)
        } else if chars_eq_str(&s, "minimal") || chars_eq_str(&s, "min") {
            Some(BuiltinPreset::Minimal)
        } else if chars_eq_str(&s, "constrained") || chars_eq_str(&s, "cons") {
            Some(BuiltinPreset::Constrained)
        } else {
            None
        }
    }
}

/// Whether the preset enables the builtin with the given id.
fn preset_enables_id(p: BuiltinPreset, id: usize) -> (r: bool)
    requires
        id < BUILTIN_COUNT,
    ensures
        r == preset_enables(p, builtin_group_v(id as int)),
{
    let g = builtin_group(id);
    if g == BuiltinGroup::Intrinsic {
        return true;
    }
    match p {
        BuiltinPreset::All => true,
        BuiltinPreset::Minimal => false,
        BuiltinPreset::Pure => !(g == BuiltinGroup::CoreIo || g == BuiltinGroup::Exec
            || g == BuiltinGroup::FileIo || g == BuiltinGroup::Viz || g == BuiltinGroup::Rand),
        BuiltinPreset::Constrained => !(g == BuiltinGroup::Exec || g == BuiltinGroup::FileIo),
    }
}

/// The id of the builtin with the given name.
pub fn name_to_id(name: &str) -> (r: Option<usize>)
    ensures
        r matches Some(i) ==> name_id_v(name@) == Some(i as int) && i < BUILTIN_COUNT
            && builtin_name_v(i as int) == name@,
        r is None <==> name_id_v(name@) is None,
{
    let v = chars_of(name);
    let mut id: usize = 0;
    while id < BUILTIN_COUNT
        invariant
            id <= BUILTIN_COUNT,
            v@ == name@,
            name_id_v(name@) == find_name_from(name@, id as int),
        decreases BUILTIN_COUNT - id,
    {
        if chars_eq_str(&v, builtin_name(id)) {
            return Some(id);
        }
        id += 1;
    }
    None
}

/// Whether a name is the name of a builtin.
pub fn is_builtin_name(name: &Vec<char>) -> (r: bool)
    ensures
        r == (name_id_v(name@) is Some),
{
    let s = string_from_chars(name.as_slice());
    name_to_id(s.as_str()).is_some()
}

/// The registry: for each builtin id, whether it is enabled.
pub struct Builtins {
    enabled: Vec<bool>,
}

impl View for Builtins {
    type V = Seq<bool>;

    closed spec fn view(&self) -> Seq<bool> {
        self.enabled@
    }
}

impl Builtins {
    #[verifier::type_invariant]
    spec fn well_formed(self) -> bool {
        self.enabled@.len() == BUILTIN_COUNT
    }

    /// A registry with every builtin enabled.
    pub fn new() -> (r: Builtins)
        ensures
            r@ == preset_table(BuiltinPreset::All),
    {
        Builtins::with_preset(BuiltinPreset::All)
    }

    /// A registry with the builtins that a preset enables.
    pub fn with_preset(preset: BuiltinPreset) -> (r: Builtins)
        ensures
            r@ == preset_table(preset),
    {
        Builtins { enabled: preset_vec(preset) }
    }

    /// Enables exactly the builtins that a preset enables.
    pub fn apply_preset(&mut self, preset: BuiltinPreset)
        ensures
            final(self)@ == preset_table(preset),
    {
        self.enabled = preset_vec(preset);
    }

    /// Whether the builtin with the given id exists and is enabled.
    pub fn is_enabled_id(&self, id: u16) -> (r: bool)
        ensures
            r == ((id as int) < BUILTIN_COUNT && self@[id as int]),
    {
        proof {
            use_type_invariant(self);
        }
        let i = id as usize;
        i < self.enabled.len() && self.enabled[i]
    }

    /// Whether a name is the name of an enabled builtin.
    pub fn is_enabled_name(&self, name: &str) -> (r: bool)
        ensures
            r == (name_id_v(name@) matches Some(i) && self@[i]),
    {
        proof {
            use_type_invariant(self);
        }
        match name_to_id(name) {
            Some(i) => self.enabled[i],
            None => false,
        }
    }

    /// Whether a name is the name of a builtin, enabled or not.
    pub fn is_known_name(&self, name: &str) -> (r: bool)
        ensures
            r == (name_id_v(name@) is Some),
    {
        name_to_id(name).is_some()
    }

    /// Whether a name is the name of a builtin that is not enabled.
    pub fn is_disabled_name(&self, name: &str) -> (r: bool)
        ensures
            r == (name_id_v(name@) matches Some(i) && !self@[i]),
    {
        self.is_known_name(name) && !self.is_enabled_name(name)
    }

    /// Whether an enabled builtin has the given name.
    pub fn has_function(&self, name: &str) -> (r: bool)
        ensures
            r == (name_id_v(name@) matches Some(i) && self@[i]),
    {
        self.is_enabled_name(name)
    }

    /// The id of the enabled builtin with the given name.
    pub fn get_id(&self, name: &str) -> (r: Option<usize>)
        ensures
            r matches Some(i) ==> name_id_v(name@) == Some(i as int) && self@[i as int],
            r is None <==> !(name_id_v(name@) matches Some(i) && self@[i]),
    {
        proof {
            use_type_invariant(self);
        }
        match name_to_id(name) {
            Some(i) => if self.enabled[i] {
                Some(i)
            } else {
                None
            },
            None => None,
        }
    }

    /// The names of the enabled builtins, in id order.
    pub fn list_functions(&self) -> (r: Vec<String>)
        ensures
            r@.len() == enabled_names(self@, BUILTIN_COUNT as int).len(),
            forall|i: int| 0 <= i < r@.len() ==> (#[trigger] r@[i])@ == enabled_names(self@, BUILTIN_COUNT as int)[i],
    {
        proof {
            use_type_invariant(self);
        }
        let mut out: Vec<String> = Vec::new();
        let mut id: usize = 0;
        while id < BUILTIN_COUNT
            invariant
                id <= BUILTIN_COUNT,
                self.enabled@.len() == BUILTIN_COUNT,
                out@.len() == enabled_names(self@, id as int).len(),
                forall|i: int| 0 <= i < out@.len() ==> (#[trigger] out@[i])@ == enabled_names(self@, id as int)[i],
            decreases BUILTIN_COUNT - id,
        {
            if self.enabled[id] {
                out.push(builtin_name(id).to_string());
            }
            id += 1;
        }
        out
    }

    /// The names of all builtins, in id order.
    pub fn list_functions_all(&self) -> (r: Vec<String>)
        ensures
            r@.len() == BUILTIN_COUNT,
            forall|i: int| 0 <= i < r@.len() ==> (#[trigger] r@[i])@ == builtin_name_v(i),
    {
        let mut out: Vec<String> = Vec::new();
        let mut id: usize = 0;
        while id < BUILTIN_COUNT
            invariant
                id <= BUILTIN_COUNT,
                out@.len() == id,
                forall|i: int| 0 <= i < id ==> (#[trigger] out@[i])@ == builtin_name_v(i),
            decreases BUILTIN_COUNT - id,
        {
            out.push(builtin_name(id).to_string());
            id += 1;
        }
        out
    }
}

/// The table of a preset, as a vector.
fn preset_vec(preset: BuiltinPreset) -> (r: Vec<bool>)
    ensures
        r@ == preset_table(preset),
{
    let mut v: Vec<bool> = Vec::new();
    let mut id: usize = 0;
    while id < BUILTIN_COUNT
        invariant
            id <= BUILTIN_COUNT,
            v@.len() == id,
            forall|i: int| 0 <= i < id ==> v@[i] == preset_enables(preset, builtin_group_v(i)),
        decreases BUILTIN_COUNT - id,
    {
        v.push(preset_enables_id(preset, id));
        id += 1;
    }
    assert(v@ =~= preset_table(preset));
    v
}

/// Every preset enables the intrinsics, and each preset enables no more than `All`; `Minimal`
/// enables no more than any other preset, and `Pure` no more than `Constrained`.
pub proof fn law_presets_ordered(id: int)
    requires
        0 <= id < BUILTIN_COUNT,
    ensures
        builtin_group_v(id) == BuiltinGroup::Intrinsic ==> preset_table(BuiltinPreset::Minimal)[id],
        preset_table(BuiltinPreset::All)[id],
        preset_table(BuiltinPreset::Minimal)[id] ==> preset_table(BuiltinPreset::Pure)[id],
        preset_table(BuiltinPreset::Pure)[id] ==> preset_table(BuiltinPreset::Constrained)[id],
{
}

/// A registry's answers by name agree with its answers by id: a name is enabled exactly when
/// its id is.
pub proof fn law_name_and_id_agree(en: Seq<bool>, name: Seq<char>)
    ensures
        name_id_v(name) matches Some(i) ==> 0 <= i < BUILTIN_COUNT && builtin_name_v(i) == name,
{
    if name_id_v(name) is Some {
        lemma_find_name_from(name, 0);
    }
}

proof fn lemma_find_name_from(name: Seq<char>, k: int)
    requires
        find_name_from(name, k) is Some,
    ensures
        find_name_from(name, k) matches Some(i) && k <= i < BUILTIN_COUNT && builtin_name_v(i) == name,
    decreases BUILTIN_COUNT - k,
{
    if 0 <= k < BUILTIN_COUNT && builtin_name_v(k) != name {
        lemma_find_name_from(name, k + 1);
    }
}

/// An operation folded from the left over values: the first, then each next one in turn.
pub open spec fn fold_bc_v(op: AtomOp, vs: Seq<Val>, k: int) -> Option<Val>
    decreases k,
{
    if k <= 1 {
        Some(vs[0])
    } else {
        match fold_bc_v(op, vs, k - 1) {
            Some(acc) => bc_v(op, acc, vs[k - 1]),
            None => None,
        }
    }
}

/// What folding an operation over the arguments of a builtin gives: fewer than two
/// arguments is an argument-count error; where the operation does not apply, the error names
/// the builtin and says what was expected.
pub open spec fn fold_value_ok(op: AtomOp, args: Seq<Value>, r: WqResult<Value>) -> bool {
    let vs = vals(args);
    if args.len() < 2 {
        r matches Err(e) && e.kind == WqErrorType::Arity
            && e.msg@ == "expected 2 or more args, got "@ + decimal_digits(args.len())
    } else {
        match fold_bc_v(op, vs, args.len() as int) {
            Some(v) => r matches Ok(x) && x@ == v,
            None => r matches Err(e) && e.kind == WqErrorType::Domain,
        }
    }
}

/// Folds an operation from the left over the arguments of a builtin.
pub fn fold_value(builtin: usize, args: &[Value], op: AtomOp, expected: &str) -> (r: WqResult<Value>)
    requires
        builtin < BUILTIN_COUNT,
    ensures
        fold_value_ok(op, args@, r),
        args@.len() >= 2 ==> (r matches Err(e) ==> e.src@ == builtin_src_v(builtin as int)
            && e.msg@ == "expected "@ + expected@),
{
    if args.len() < 2 {
        let mut m = chars_of("expected 2 or more args, got ");
        let d = usize_to_decimal(args.len());
        append_chars(&mut m, &d);
        return Err(WqError::new(WqErrorType::Arity).msg(string_from_chars(m.as_slice()).as_str()));
    }
    let ghost vs = vals(args@);
    let mut acc = args[0].clone();
    let mut i: usize = 1;
    while i < args.len()
        invariant
            1 <= i <= args@.len(),
            builtin < BUILTIN_COUNT,
            vs == vals(args@),
            fold_bc_v(op, vs, i as int) == Some(acc@),
        decreases args.len() - i,
    {
        match bc(op, &acc, &args[i]) {
            Some(v) => {
                acc = v;
            },
            None => {
                proof {
                    lemma_fold_none(op, vs, i as int + 1, vs.len() as int);
                }
                let mut m = chars_of("expected ");
                append_str(&mut m, expected);
                return Err(WqError::new(WqErrorType::Domain).src(builtin_src(builtin).as_str()).msg(
                    string_from_chars(m.as_slice()).as_str(),
                ));
            },
        }
        i += 1;
    }
    Ok(acc)
}

proof fn lemma_fold_none(op: AtomOp, vs: Seq<Val>, k: int, n: int)
    requires
        2 <= k <= n,
        fold_bc_v(op, vs, k) is None,
    ensures
        fold_bc_v(op, vs, n) is None,
    decreases n - k,
{
    if k < n {
        lemma_fold_none(op, vs, k + 1, n);
    }
}

} // verus!
