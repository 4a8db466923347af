//! The iRacing variable catalogue and the code generator built on it.
//!
//! The catalogue is the union over every car ever seen: iRacing declares in a
//! session only the variables the current car has, so a session is *merged*
//! into the catalogue, which only ever grows. From the catalogue the
//! generator renders the typed frame (`IracingOffsets`, `IracingFrame`) as
//! Rust source, and the catalogue itself back to TOML.
use vstd::prelude::*;
use crate::sorting::{named, sort_by_name, stably_sorted_by_name, views, Named};
use crate::types::{VarMeta, VarMetaView};
use crate::text::{
    append_chars, append_decimal, ascii_digit, ascii_upper, char_is_lowercase, char_is_uppercase,
    char_to_lowercase, char_to_uppercase, chars_of, decimal, push_char, str_equal,
    unicode_lowercase, unicode_to_lower, unicode_to_upper, unicode_uppercase,
};

verus! {

/// One telemetry variable as the catalogue records it.
#[derive(Clone, Debug)]
pub struct VarDef {
    pub name: String,
    /// Element type: `f32`, `f64`, `i32` or `bool`.
    pub type_: String,
    /// Element count, 1 for scalars.
    pub count: u32,
    pub unit: String,
    pub desc: String,
}

/// A [`VarDef`] as plain values.
pub struct VarDefView {
    pub name: Seq<char>,
    pub type_: Seq<char>,
    pub count: u32,
    pub unit: Seq<char>,
    pub desc: Seq<char>,
}

impl View for VarDef {
    type V = VarDefView;

    open spec fn view(&self) -> VarDefView {
        VarDefView {
            name: self.name@,
            type_: self.type_@,
            count: self.count,
            unit: self.unit@,
            desc: self.desc@,
        }
    }
}

impl VarDef {
    /// A copy with the same contents.
    pub fn duplicate(&self) -> (r: VarDef)
        ensures
            r@ == self@,
    {
        VarDef {
            name: self.name.clone(),
            type_: self.type_.clone(),
            count: self.count,
            unit: self.unit.clone(),
            desc: self.desc.clone(),
        }
    }
}

/// The views of a sequence of definitions.
pub open spec fn defs_view(defs: Seq<VarDef>) -> Seq<VarDefView> {
    views(defs)
}

impl Named for VarDef {
    open spec fn name_of(v: VarDefView) -> Seq<char> {
        v.name
    }

    fn name_str(&self) -> (r: &str) {
        self.name.as_str()
    }
}

/// The element count a catalogue entry has when its file gives none.
pub fn default_count() -> (c: u32)
    ensures
        c == 1,
{
    1
}

/// The element type a catalogue entry gets for a variable of the given
/// iRacing type name: `float` is `f32`, `double` is `f64`, `bool` is `bool`,
/// and every other name (`int`, `bitfield`, `char`, anything unknown) is `i32`.
pub open spec fn catalogue_type(sim_type: Seq<char>) -> Seq<char> {
    if sim_type == "float"@ {
        "f32"@
    } else if sim_type == "double"@ {
        "f64"@
    } else if sim_type == "bool"@ {
        "bool"@
    } else {
        "i32"@
    }
}

/// The catalogue entry for a variable the session declares.
pub open spec fn def_of_meta(m: VarMetaView) -> VarDefView {
    VarDefView {
        name: m.name,
        type_: catalogue_type(m.type_str),
        count: m.count,
        unit: m.unit,
        desc: m.desc,
    }
}

/// The catalogue entry for a variable the session declares (see [`def_of_meta`]).
pub fn def_from_meta(meta: &VarMeta) -> (r: VarDef)
    ensures
        r@ == def_of_meta(meta@),
{
    let t = meta.type_str;
    let type_ = if str_equal(t, "float") {
        String::from_str("f32")
    } else if str_equal(t, "double") {
        String::from_str("f64")
    } else if str_equal(t, "bool") {
        String::from_str("bool")
    } else {
        String::from_str("i32")
    };
    VarDef {
        name: meta.name.clone(),
        type_,
        count: meta.count,
        unit: meta.unit.clone(),
        desc: meta.desc.clone(),
    }
}

/// The catalogue entries for the variables a session declares, sorted by
/// name; variables of equal name keep their order.
pub fn defs_from_session(vars: &[VarMeta]) -> (r: Vec<VarDef>)
    ensures
        stably_sorted_by_name::<VarDef>(views(vars@).map_values(|m: VarMetaView| def_of_meta(m)), views(r@)),
{
    let ghost mapped = views(vars@).map_values(|m: VarMetaView| def_of_meta(m));
    let mut defs: Vec<VarDef> = Vec::new();
    let mut i: usize = 0;
    while i < vars.len()
        invariant
            i <= vars.len(),
            mapped == views(vars@).map_values(|m: VarMetaView| def_of_meta(m)),
            views(defs@) == mapped.take(i as int),
        decreases vars.len() - i,
    {
        let d = def_from_meta(&vars[i]);
        let ghost before = defs@;
        defs.push(d);
        proof {
            assert(views(defs@) =~= views(before).push(d@));
            assert(mapped.take(i as int + 1) =~= mapped.take(i as int).push(mapped[i as int]));
        }
        i = i + 1;
    }
    assert(mapped.take(vars.len() as int) =~= mapped);
    sort_by_name(defs)
}

/// What a merge did to the catalogue, for the operator to read before committing.
pub struct MergeReport {
    /// Variables the session declared that the catalogue had never seen.
    pub added: Vec<String>,
    /// Variables whose type or element count the session declares differently.
    pub redefined: Vec<String>,
    /// Variables the catalogue holds that this car does not expose. They are
    /// kept (another car still publishes them) and listed only so a genuine
    /// removal by iRacing is not silently carried forever.
    pub absent: Vec<String>,
}

/// The names held in a list of strings.
pub open spec fn strings_view(v: Seq<String>) -> Seq<Seq<char>> {
    v.map_values(|s: String| s@)
}

impl Default for MergeReport {
    fn default() -> (r: MergeReport)
        ensures
            r.added@.len() == 0,
            r.redefined@.len() == 0,
            r.absent@.len() == 0,
    {
        MergeReport { added: Vec::new(), redefined: Vec::new(), absent: Vec::new() }
    }
}

// ---------------------------------------------------------------------------
// The merge, stated over plain values.
/// The first position in `defs` whose name is `name`, or -1.
pub open spec fn first_index_of(defs: Seq<VarDefView>, name: Seq<char>) -> int
    decreases defs.len(),
{
    if defs.len() == 0 {
        -1
    } else {
        let k = first_index_of(defs.drop_last(), name);
        if k >= 0 {
            k
        } else if defs.last().name == name {
            defs.len() - 1
        } else {
            -1
        }
    }
}

/// Whether some definition in `defs` is named `name`.
pub open spec fn has_name(defs: Seq<VarDefView>, name: Seq<char>) -> bool {
    exists|i: int| 0 <= i < defs.len() && #[trigger] defs[i].name == name
}

/// Whether the session declares `held` with another type or element count.
pub open spec fn reshaped(held: VarDefView, incoming: VarDefView) -> bool {
    held.type_ != incoming.type_ || held.count != incoming.count
}

/// `held` updated by `incoming`: the session wins on shape, and on unit and
/// description wherever it carries one.
pub open spec fn updated(held: VarDefView, incoming: VarDefView) -> VarDefView {
    VarDefView {
        name: held.name,
        type_: if reshaped(held, incoming) {
            incoming.type_
        } else {
            held.type_
        },
        count: if reshaped(held, incoming) {
            incoming.count
        } else {
            held.count
        },
        unit: if incoming.unit.len() > 0 {
            incoming.unit
        } else {
            held.unit
        },
        desc: if incoming.desc.len() > 0 {
            incoming.desc
        } else {
            held.desc
        },
    }
}

/// Folds one incoming definition into `merged`: a new name is appended, a
/// known one (its first holder) is updated.
pub open spec fn merge_one(merged: Seq<VarDefView>, incoming: VarDefView) -> Seq<VarDefView> {
    let k = first_index_of(merged, incoming.name);
    if k < 0 {
        merged.push(incoming)
    } else {
        merged.update(k, updated(merged[k], incoming))
    }
}

/// The catalogue after folding in the session, in order, before sorting.
pub open spec fn merge_all(catalogue: Seq<VarDefView>, session: Seq<VarDefView>) -> Seq<
    VarDefView,
>
    decreases session.len(),
{
    if session.len() == 0 {
        catalogue
    } else {
        merge_one(merge_all(catalogue, session.drop_last()), session.last())
    }
}

/// The names the merge reports as added, in session order.
pub open spec fn added_names(catalogue: Seq<VarDefView>, session: Seq<VarDefView>) -> Seq<
    Seq<char>,
>
    decreases session.len(),
{
    if session.len() == 0 {
        seq![]
    } else {
        let before = merge_all(catalogue, session.drop_last());
        let rest = added_names(catalogue, session.drop_last());
        if first_index_of(before, session.last().name) < 0 {
            rest.push(session.last().name)
        } else {
            rest
        }
    }
}

/// The names the merge reports as redefined, in session order.
pub open spec fn redefined_names(catalogue: Seq<VarDefView>, session: Seq<VarDefView>) -> Seq<
    Seq<char>,
>
    decreases session.len(),
{
    if session.len() == 0 {
        seq![]
    } else {
        let before = merge_all(catalogue, session.drop_last());
        let rest = redefined_names(catalogue, session.drop_last());
        let k = first_index_of(before, session.last().name);
        if k >= 0 && reshaped(before[k], session.last()) {
            rest.push(session.last().name)
        } else {
            rest
        }
    }
}

/// The names of the entries of `merged` that the session does not declare,
/// in order.
pub open spec fn absent_names(merged: Seq<VarDefView>, session: Seq<VarDefView>) -> Seq<
    Seq<char>,
>
    decreases merged.len(),
{
    if merged.len() == 0 {
        seq![]
    } else {
        let rest = absent_names(merged.drop_last(), session);
        if has_name(session, merged.last().name) {
            rest
        } else {
            rest.push(merged.last().name)
        }
    }
}

// ---------------------------------------------------------------------------
// The merge, executed.
/// The first position in `defs` named `name`, if any.
fn find_by_name(defs: &Vec<VarDef>, name: &str) -> (r: Option<usize>)
    ensures
        match r {
            Some(k) => k as int == first_index_of(defs_view(defs@), name@) && k < defs.len(),
            None => first_index_of(defs_view(defs@), name@) < 0,
        },
{
    let mut i: usize = 0;
    while i < defs.len()
        invariant
            i <= defs.len(),
            first_index_of(defs_view(defs@).take(i as int), name@) < 0,
        decreases defs.len() - i,
    {
        proof {
            lemma_first_index_take_step(defs_view(defs@), name@, i as int);
        }
        if str_equal(defs[i].name.as_str(), name) {
            return Some(i);
        }
        i = i + 1;
    }
    proof {
        assert(defs_view(defs@).take(defs.len() as int) =~= defs_view(defs@));
    }
    None
}

/// How `first_index_of` moves when a prefix grows by one element.
proof fn lemma_first_index_take_step(defs: Seq<VarDefView>, name: Seq<char>, i: int)
    requires
        0 <= i < defs.len(),
        first_index_of(defs.take(i), name) < 0,
    ensures
        first_index_of(defs.take(i + 1), name) == (if defs[i].name == name {
            i
        } else {
            -1
        }),
        defs[i].name == name ==> first_index_of(defs, name) == i,
{
    assert(defs.take(i + 1).drop_last() =~= defs.take(i));
    if defs[i].name == name {
        lemma_first_index_prefix(defs, name, i + 1);
    }
}

/// A match inside a prefix is the match of the whole sequence.
proof fn lemma_first_index_prefix(defs: Seq<VarDefView>, name: Seq<char>, n: int)
    requires
        0 <= n <= defs.len(),
        first_index_of(defs.take(n), name) >= 0,
    ensures
        first_index_of(defs, name) == first_index_of(defs.take(n), name),
    decreases defs.len() - n,
{
    if n < defs.len() {
        assert(defs.take(n + 1).drop_last() =~= defs.take(n));
        lemma_first_index_prefix(defs, name, n + 1);
    } else {
        assert(defs.take(n) =~= defs);
    }
}

/// Whether some definition in `defs` is named `name`.
fn contains_name(defs: &[VarDef], name: &str) -> (r: bool)
    ensures
        r == has_name(defs_view(defs@), name@),
{
    let mut i: usize = 0;
    while i < defs.len()
        invariant
            i <= defs.len(),
            forall|j: int| 0 <= j < i ==> defs@[j].name@ != name@,
        decreases defs.len() - i,
    {
        if str_equal(defs[i].name.as_str(), name) {
            assert(defs_view(defs@)[i as int].name == name@);
            return true;
        }
        i = i + 1;
    }
    proof {
        if has_name(defs_view(defs@), name@) {
            let j = choose|j: int|
                0 <= j < defs_view(defs@).len() && #[trigger] defs_view(defs@)[j].name == name@;
            assert(defs@[j].name@ == name@);
        }
    }
    false
}

/// Fold the variables of one session into the catalogue.
///
/// The catalogue is the union over every car ever seen, because iRacing
/// declares only the variables the current car has: merging is what keeps a
/// regeneration in a GTP car from dropping the fields that only a formula car
/// or only a road car publishes. Entries are therefore never removed here.
///
/// Where both sides know a variable, the session wins on shape (type and
/// count) and on any description or unit it actually carries: the sim is
/// authoritative, and an empty string from it is absence, not a correction.
/// The result is sorted by name.
pub fn merge_defs(catalogue: &[VarDef], session: &[VarDef]) -> (r: (Vec<VarDef>, MergeReport))
    ensures
        stably_sorted_by_name::<VarDef>(
            merge_all(defs_view(catalogue@), defs_view(session@)),
            defs_view(r.0@),
        ),
        strings_view(r.1.added@) == added_names(defs_view(catalogue@), defs_view(session@)),
        strings_view(r.1.redefined@) == redefined_names(
            defs_view(catalogue@),
            defs_view(session@),
        ),
        strings_view(r.1.absent@) == absent_names(
            merge_all(defs_view(catalogue@), defs_view(session@)),
            defs_view(session@),
        ),
{
    let ghost cat = defs_view(catalogue@);
    let ghost ses = defs_view(session@);
    let mut merged: Vec<VarDef> = Vec::new();
    let mut i: usize = 0;
    while i < catalogue.len()
        invariant
            i <= catalogue.len(),
            cat == defs_view(catalogue@),
            defs_view(merged@) == cat.take(i as int),
        decreases catalogue.len() - i,
    {
        let d = catalogue[i].duplicate();
        let ghost before = merged@;
        merged.push(d);
        proof {
            assert(defs_view(merged@) =~= defs_view(before).push(d@));
            assert(cat.take(i + 1) =~= cat.take(i as int).push(cat[i as int]));
        }
        i = i + 1;
    }
    proof {
        assert(cat.take(catalogue.len() as int) =~= cat);
        assert(ses.take(0) =~= Seq::<VarDefView>::empty());
    }
    let mut report = MergeReport::default();
    proof {
        assert(strings_view(report.added@) =~= Seq::<Seq<char>>::empty());
        assert(strings_view(report.redefined@) =~= Seq::<Seq<char>>::empty());
    }
    let mut j: usize = 0;
    while j < session.len()
        invariant
            j <= session.len(),
            cat == defs_view(catalogue@),
            ses == defs_view(session@),
            defs_view(merged@) == merge_all(cat, ses.take(j as int)),
            strings_view(report.added@) == added_names(cat, ses.take(j as int)),
            strings_view(report.redefined@) == redefined_names(cat, ses.take(j as int)),
            report.absent@.len() == 0,
        decreases session.len() - j,
    {
        let incoming = &session[j];
        let ghost inc = incoming@;
        let ghost prefix = ses.take(j as int);
        proof {
            assert(ses.take(j + 1).drop_last() =~= prefix);
            assert(ses.take(j + 1).last() == inc);
        }
        let found = find_by_name(&merged, incoming.name.as_str());
        match found {
            None => {
                let ghost before_added = report.added@;
                report.added.push(incoming.name.clone());
                let ghost before = merged@;
                merged.push(incoming.duplicate());
                proof {
                    assert(defs_view(merged@) =~= defs_view(before).push(inc));
                    assert(strings_view(report.added@) =~= strings_view(before_added).push(
                        inc.name,
                    ));
                }
            },
            Some(k) => {
                let ghost heldv = defs_view(merged@)[k as int];
                let held = &merged[k];
                let reshape = !str_equal(held.type_.as_str(), incoming.type_.as_str()) || held.count
                    != incoming.count;
                let type_ = if reshape {
                    incoming.type_.clone()
                } else {
                    held.type_.clone()
                };
                let count = if reshape {
                    incoming.count
                } else {
                    held.count
                };
                let unit = if !incoming.unit.as_str().is_empty() {
                    incoming.unit.clone()
                } else {
                    held.unit.clone()
                };
                let desc = if !incoming.desc.as_str().is_empty() {
                    incoming.desc.clone()
                } else {
                    held.desc.clone()
                };
                let name = held.name.clone();
                let newdef = VarDef { name, type_, count, unit, desc };
                proof {
                    assert(heldv == held@);
                    assert(reshape == reshaped(heldv, inc));
                    assert(newdef@ == updated(heldv, inc));
                }
                if reshape {
                    let ghost before_red = report.redefined@;
                    report.redefined.push(incoming.name.clone());
                    proof {
                        assert(strings_view(report.redefined@) =~= strings_view(before_red).push(
                            inc.name,
                        ));
                    }
                }
                let ghost before = merged@;
                merged.set(k, newdef);
                proof {
                    assert(defs_view(merged@) =~= defs_view(before).update(
                        k as int,
                        updated(heldv, inc),
                    ));
                }
            },
        }
        j = j + 1;
    }
    proof {
        assert(ses.take(session.len() as int) =~= ses);
    }
    let ghost full = defs_view(merged@);
    let mut m: usize = 0;
    proof {
        assert(strings_view(report.absent@) =~= Seq::<Seq<char>>::empty());
        assert(full.take(0) =~= Seq::<VarDefView>::empty());
    }
    while m < merged.len()
        invariant
            m <= merged.len(),
            full == defs_view(merged@),
            ses == defs_view(session@),
            strings_view(report.absent@) == absent_names(full.take(m as int), ses),
            cat == defs_view(catalogue@),
            full == merge_all(cat, ses),
            strings_view(report.added@) == added_names(cat, ses),
            strings_view(report.redefined@) == redefined_names(cat, ses),
        decreases merged.len() - m,
    {
        proof {
            assert(full.take(m + 1).drop_last() =~= full.take(m as int));
            assert(full.take(m + 1).last() == full[m as int]);
        }
        if !contains_name(session, merged[m].name.as_str()) {
            let ghost before_abs = report.absent@;
            report.absent.push(merged[m].name.clone());
            proof {
                assert(strings_view(report.absent@) =~= strings_view(before_abs).push(
                    full[m as int].name,
                ));
            }
        }
        m = m + 1;
    }
    proof {
        assert(full.take(merged.len() as int) =~= full);
    }
    let sorted = sort_by_name(merged);
    (sorted, report)
}

// ---------------------------------------------------------------------------
// Field names: iRacing's CamelCase to Rust's snake_case.
/// What the generic conversion emits for the character at `i`: an uppercase
/// letter becomes its lowercase form, preceded by `_` where a new word starts;
/// anything else is copied.
pub open spec fn snake_piece(chars: Seq<char>, i: int) -> Seq<char> {
    let c = chars[i];
    if unicode_uppercase(c) {
        let prev_lower = i > 0 && unicode_lowercase(chars[i - 1]);
        let next_lower = i + 1 < chars.len() && unicode_lowercase(chars[i + 1]);
        let prev_upper = i > 0 && unicode_uppercase(chars[i - 1]);
        let prev_digit = i > 0 && ascii_digit(chars[i - 1]);
        let lower = seq![unicode_to_lower(c)[0]];
        if i > 0 && (prev_lower || (next_lower && (prev_upper || prev_digit))) {
            seq!['_'] + lower
        } else {
            lower
        }
    } else {
        seq![c]
    }
}

/// The generic conversion of the first `n` characters.
pub open spec fn snake_generic_upto(chars: Seq<char>, n: int) -> Seq<char>
    decreases n,
{
    if n <= 0 {
        seq![]
    } else {
        snake_generic_upto(chars, n - 1) + snake_piece(chars, n - 1)
    }
}

/// The generic CamelCase to snake_case conversion: a word starts at an
/// uppercase letter after a lowercase one, and at an uppercase letter that
/// begins a lowercase run after an uppercase letter or a digit (so `F2Time`
/// gives `f2_time` while `P2P_Status` keeps `p2p` whole).
pub open spec fn snake_generic(chars: Seq<char>) -> Seq<char> {
    snake_generic_upto(chars, chars.len() as int)
}

/// The number of corner and axle codes.
pub open spec fn corner_prefix_count() -> int {
    12
}

/// Corner and axle codes that open a variable name, longest first:
/// `LFSHshockDefl` is an `LFSH` channel, and matching `LF` against it would
/// leave `lfs_hshock_defl`.
pub open spec fn corner_prefix(k: int) -> Seq<char> {
    if k == 0 {
        "LFSH"@
    } else if k == 1 {
        "LRSH"@
    } else if k == 2 {
        "RFSH"@
    } else if k == 3 {
        "RRSH"@
    } else if k == 4 {
        "CF"@
    } else if k == 5 {
        "CR"@
    } else if k == 6 {
        "HF"@
    } else if k == 7 {
        "HR"@
    } else if k == 8 {
        "LF"@
    } else if k == 9 {
        "LR"@
    } else if k == 10 {
        "RF"@
    } else {
        "RR"@
    }
}

fn corner_prefix_exec(k: usize) -> (r: &'static str)
    requires
        k < 12,
    ensures
        r@ == corner_prefix(k as int),
{
    if k == 0 {
        "LFSH"
    } else if k == 1 {
        "LRSH"
    } else if k == 2 {
        "RFSH"
    } else if k == 3 {
        "RRSH"
    } else if k == 4 {
        "CF"
    } else if k == 5 {
        "CR"
    } else if k == 6 {
        "HF"
    } else if k == 7 {
        "HR"
    } else if k == 8 {
        "LF"
    } else if k == 9 {
        "LR"
    } else if k == 10 {
        "RF"
    } else {
        "RR"
    }
}

/// The lowercase mapping of every character of `s`, concatenated.
pub open spec fn lower_all(s: Seq<char>) -> Seq<char>
    decreases s.len(),
{
    if s.len() == 0 {
        seq![]
    } else {
        lower_all(s.drop_last()) + unicode_to_lower(s.last())
    }
}

/// Whether `name` opens with `prefix` followed by a lowercase letter.
pub open spec fn opens_with_code(name: Seq<char>, prefix: Seq<char>) -> bool {
    &&& name.len() > prefix.len()
    &&& name.take(prefix.len() as int) == prefix
    &&& unicode_lowercase(name[prefix.len() as int])
}

/// The conversion trying the corner codes from the `k`-th on. A name opening
/// with a code and then a lowercase letter is the code as one word, then the
/// rest with its first letter capitalised, converted generically.
pub open spec fn snake_from_corner(name: Seq<char>, k: int) -> Seq<char>
    decreases corner_prefix_count() - k,
{
    if k >= corner_prefix_count() {
        snake_generic(name)
    } else {
        let p = corner_prefix(k);
        if opens_with_code(name, p) {
            lower_all(p) + seq!['_'] + snake_generic(
                unicode_to_upper(name[p.len() as int]) + name.skip(p.len() as int + 1),
            )
        } else {
            snake_from_corner(name, k + 1)
        }
    }
}


proof fn lemma_corner_walk(name: Seq<char>, k: int, kp: int)
    requires
        0 <= k <= kp < corner_prefix_count(),
        forall|j: int| k <= j < kp ==> !#[trigger] opens_with_code(name, corner_prefix(j)),
    ensures
        snake_from_corner(name, k) == snake_from_corner(name, kp),
    decreases kp - k,
{
    if k < kp {
        lemma_corner_walk(name, k + 1, kp);
    }
}

/// Corner and axle codes are one word: a name that opens with one of the
/// codes `LFSH`, `LRSH`, `RFSH`, `RRSH`, `CF`, `CR`, `HF`, `HR`, `LF`, `LR`,
/// `RF`, `RR` followed by a lowercase letter converts to the code in
/// lowercase, `_`, and the rest (its first letter capitalised) converted
/// generically, unless a longer code matches (`LFSH` before `LF`).
pub proof fn lemma_corner_code_is_one_word(name: Seq<char>, p: Seq<char>)
    requires
        p == "LFSH"@ || p == "LRSH"@ || p == "RFSH"@ || p == "RRSH"@ || p == "CF"@ || p == "CR"@
            || p == "HF"@ || p == "HR"@ || p == "LF"@ || p == "LR"@ || p == "RF"@ || p == "RR"@,
        opens_with_code(name, p),
        p.len() == 2 ==> !opens_with_code(name, p + "SH"@),
    ensures
        snake_case(name) == lower_all(p) + seq!['_'] + snake_generic(
            unicode_to_upper(name[p.len() as int]) + name.skip(p.len() as int + 1),
        ),
{
    reveal_strlit("LFSH");
    reveal_strlit("LRSH");
    reveal_strlit("RFSH");
    reveal_strlit("RRSH");
    reveal_strlit("CF");
    reveal_strlit("CR");
    reveal_strlit("HF");
    reveal_strlit("HR");
    reveal_strlit("LF");
    reveal_strlit("LR");
    reveal_strlit("RF");
    reveal_strlit("RR");
    reveal_strlit("SH");
    reveal_strlit("BrakeABSactive");
    let kp: int = if p == "LFSH"@ { 0int } else if p == "LRSH"@ { 1int } else if p == "RFSH"@ { 2int } else if p == "RRSH"@ { 3int } else if p == "CF"@ { 4int } else if p == "CR"@ { 5int } else if p == "HF"@ { 6int } else if p == "HR"@ { 7int } else if p == "LF"@ { 8int } else if p == "LR"@ { 9int } else if p == "RF"@ { 10int } else { 11int };
    assert(corner_prefix(kp) == p);
    assert(name.take(p.len() as int) == p);
    assert(name[0] == p[0] && name[1] == p[1]);
    assert(name != "BrakeABSactive"@) by {
        if name == "BrakeABSactive"@ {
            assert(name[0] == 'B');
        }
    }
    assert forall|j: int| 0 <= j < kp implies !#[trigger] opens_with_code(name, corner_prefix(j)) by {
        let q = corner_prefix(j);
        if opens_with_code(name, q) {
            assert(name.take(q.len() as int) == q);
            assert(name[0] == q[0] && name[1] == q[1]);
            if q.len() == 4 && p.len() == 2 {
                assert(name[2] == q[2] && name[3] == q[3]);
                assert(q =~= p + "SH"@);
            }
        }
    }
    lemma_corner_walk(name, 0, kp);
}

/// The snake_case field name for an iRacing variable name.
pub open spec fn snake_case(name: Seq<char>) -> Seq<char> {
    if name == "BrakeABSactive"@ {
        "brake_abs_active"@
    } else {
        snake_from_corner(name, 0)
    }
}

/// Whether no character is an uppercase letter, by Unicode or ASCII.
pub open spec fn no_uppercase(s: Seq<char>) -> bool {
    forall|i: int| 0 <= i < s.len() ==> !unicode_uppercase(#[trigger] s[i]) && !ascii_upper(s[i])
}

proof fn lemma_snake_generic_upto_identity(s: Seq<char>, n: int)
    requires
        no_uppercase(s),
        0 <= n <= s.len(),
    ensures
        snake_generic_upto(s, n) == s.take(n),
    decreases n,
{
    if n > 0 {
        lemma_snake_generic_upto_identity(s, n - 1);
        assert(!unicode_uppercase(s[n - 1]));
        assert(s.take(n) =~= s.take(n - 1) + seq![s[n - 1]]);
    }
}

proof fn lemma_no_corner_code(s: Seq<char>, k: int)
    requires
        no_uppercase(s),
        0 <= k <= corner_prefix_count(),
    ensures
        snake_from_corner(s, k) == snake_generic(s),
    decreases corner_prefix_count() - k,
{
    if k < corner_prefix_count() {
        let p = corner_prefix(k);
        reveal_strlit("LFSH");
        reveal_strlit("LRSH");
        reveal_strlit("RFSH");
        reveal_strlit("RRSH");
        reveal_strlit("CF");
        reveal_strlit("CR");
        reveal_strlit("HF");
        reveal_strlit("HR");
        reveal_strlit("LF");
        reveal_strlit("LR");
        reveal_strlit("RF");
        reveal_strlit("RR");
        assert(p.len() >= 1 && ascii_upper(p[0]));
        if opens_with_code(s, p) {
            assert(s.take(p.len() as int)[0] == s[0]);
            assert(!ascii_upper(s[0]));
        }
        lemma_no_corner_code(s, k + 1);
    }
}

/// A name already in snake_case, with no uppercase letter, converts to
/// itself.
pub proof fn lemma_snake_case_fixed_point(name: Seq<char>)
    requires
        no_uppercase(name),
    ensures
        snake_case(name) == name,
{
    reveal_strlit("BrakeABSactive");
    assert(!ascii_upper(name[0]) ==> name != "BrakeABSactive"@);
    if name.len() > 0 {
        assert(!ascii_upper(name[0]));
    }
    lemma_no_corner_code(name, 0);
    lemma_snake_generic_upto_identity(name, name.len() as int);
    assert(name.take(name.len() as int) =~= name);
}

/// The generic conversion (see [`snake_generic`]).
pub fn camel_to_snake_generic(name: &str) -> (r: String)
    ensures
        r@ == snake_generic(name@),
{
    let chars = chars_of(name);
    snake_generic_of(&chars)
}

/// Whether every character is ASCII.
pub open spec fn ascii_text(s: Seq<char>) -> bool {
    forall|i: int| 0 <= i < s.len() ==> (#[trigger] s[i] as int) < 128
}

/// Whether no character is an ASCII uppercase letter.
pub open spec fn no_ascii_upper(s: Seq<char>) -> bool {
    forall|i: int| 0 <= i < s.len() ==> !ascii_upper(#[trigger] s[i])
}

fn snake_generic_of(chars: &Vec<char>) -> (r: String)
    ensures
        r@ == snake_generic(chars@),
        ascii_text(chars@) ==> ascii_text(r@) && no_ascii_upper(r@),
{
    let mut out = String::new();
    let n = chars.len();
    let mut i: usize = 0;
    while i < n
        invariant
            n == chars.len(),
            i <= n,
            out@ == snake_generic_upto(chars@, i as int),
            ascii_text(chars@) ==> ascii_text(out@) && no_ascii_upper(out@),
        decreases n - i,
    {
        let c = chars[i];
        if char_is_uppercase(c) {
            let prev_lower = i > 0 && char_is_lowercase(chars[i - 1]);
            let next_lower = i + 1 < n && char_is_lowercase(chars[i + 1]);
            let prev_upper = i > 0 && char_is_uppercase(chars[i - 1]);
            let prev_digit = i > 0 && '0' <= chars[i - 1] && chars[i - 1] <= '9';
            if i > 0 && (prev_lower || (next_lower && (prev_upper || prev_digit))) {
                push_char(&mut out, '_');
            }
            let lower = char_to_lowercase(c);
            push_char(&mut out, lower[0]);
        } else {
            push_char(&mut out, c);
        }
        proof {
            assert(snake_generic_upto(chars@, i + 1) == snake_generic_upto(chars@, i as int)
                + snake_piece(chars@, i as int));
            assert(out@ =~= snake_generic_upto(chars@, i + 1));
        }
        i = i + 1;
    }
    out
}

/// Converts an iRacing variable name to the snake_case name of its field.
///
/// A few names defeat mechanical splitting and are looked up; names opening
/// with a corner or axle code (`LFtempCL`) keep the code as one word
/// (`lf_temp_cl`); everything else goes through the generic conversion.
pub fn camel_to_snake(name: &str) -> (r: String)
    ensures
        r@ == snake_case(name@),
        ascii_text(name@) ==> ascii_text(r@) && no_ascii_upper(r@),
{
    if str_equal(name, "BrakeABSactive") {
        let r = String::from_str("brake_abs_active");
        proof {
            reveal_strlit("brake_abs_active");
        }
        return r;
    }
    let chars = chars_of(name);
    let mut k: usize = 0;
    while k < 12
        invariant
            k <= 12,
            chars@ == name@,
            name@ != "BrakeABSactive"@,
            snake_from_corner(name@, 0) == snake_from_corner(name@, k as int),
        decreases 12 - k,
    {
        let prefix = chars_of(corner_prefix_exec(k));
        let plen = prefix.len();
        let mut opens = false;
        if chars.len() > plen {
            let mut same = true;
            let mut q: usize = 0;
            while q < plen
                invariant
                    q <= plen,
                    plen == prefix.len(),
                    plen < chars.len(),
                    same == (forall|t: int| 0 <= t < q ==> chars@[t] == prefix@[t]),
                decreases plen - q,
            {
                if chars[q] != prefix[q] {
                    same = false;
                }
                q = q + 1;
            }
            proof {
                assert(same == (chars@.take(plen as int) =~= prefix@));
            }
            if same && char_is_lowercase(chars[plen]) {
                opens = true;
            }
        }
        proof {
            assert(opens == opens_with_code(name@, corner_prefix(k as int)));
        }
        if opens {
            let mut out = String::new();
            let mut q: usize = 0;
            while q < plen
                invariant
                    q <= plen,
                    plen == prefix.len(),
                    out@ == lower_all(prefix@.take(q as int)),
                    chars@.take(plen as int) == prefix@,
                    plen < chars.len(),
                    ascii_text(chars@) ==> ascii_text(out@) && no_ascii_upper(out@),
                decreases plen - q,
            {
                let lower = char_to_lowercase(prefix[q]);
                proof {
                    assert(prefix@[q as int] == chars@[q as int]);
                }
                append_chars(&mut out, &lower);
                proof {
                    assert(prefix@.take(q + 1).drop_last() =~= prefix@.take(q as int));
                }
                q = q + 1;
            }
            proof {
                assert(prefix@.take(plen as int) =~= prefix@);
            }
            push_char(&mut out, '_');
            let mut tail = char_to_uppercase(chars[plen]);
            let mut t: usize = plen + 1;
            let ghost upper = tail@;
            while t < chars.len()
                invariant
                    plen < t <= chars.len(),
                    tail@ == upper + chars@.subrange(plen + 1, t as int),
                    ascii_text(chars@) ==> ascii_text(tail@),
                decreases chars.len() - t,
            {
                tail.push(chars[t]);
                proof {
                    assert(chars@.subrange(plen + 1, t + 1) =~= chars@.subrange(
                        plen + 1,
                        t as int,
                    ).push(chars@[t as int]));
                }
                t = t + 1;
            }
            proof {
                assert(chars@.subrange(plen + 1, chars.len() as int) =~= name@.skip(plen + 1));
            }
            let rest = snake_generic_of(&tail);
            let ghost before = out@;
            append_chars(&mut out, &chars_of(rest.as_str()));
            proof {
                if ascii_text(chars@) {
                    assert forall|i: int| 0 <= i < out@.len() implies (#[trigger] out@[i] as int)
                        < 128 && !ascii_upper(out@[i]) by {
                        if i >= before.len() {
                            assert(out@[i] == rest@[i - before.len()]);
                        } else {
                            assert(out@[i] == before[i]);
                        }
                    }
                }
            }
            return out;
        }
        k = k + 1;
    }
    snake_generic_of(&chars)
}

// ---------------------------------------------------------------------------
// The generated Rust source.
/// The expression that reads one variable out of a data buffer, as text.
pub open spec fn raw_extract(type_: Seq<char>, count: u32, field: Seq<char>) -> Seq<char> {
    if count > 1 {
        if type_ == "bool"@ {
            "match offsets."@ + field + " {\n                Some(ref off) => unsafe {\n                    let ptr = buf.add(off.offset);\n                    let mut vec = Vec::with_capacity(off.count);\n                    for idx in 0..off.count {\n                        vec.push(*ptr.add(idx) != 0);\n                    }\n                    vec\n                },\n                None => Vec::new(),\n            }"@
        } else {
            "match offsets."@ + field + " {\n                Some(ref off) => unsafe {\n                    let src = buf.add(off.offset) "@ + pointer_cast(type_) + ";\n                    (0..off.count).map(|i| std::ptr::read_unaligned(src.add(i))).collect()\n                },\n                None => Vec::new(),\n            }"@
        }
    } else if type_ == "f32"@ {
        "match offsets."@ + field + " { Some(ref off) => unsafe { std::ptr::read_unaligned(buf.add(off.offset) as *const f32) }, None => 0.0 }"@
    } else if type_ == "f64"@ {
        "match offsets."@ + field + " { Some(ref off) => unsafe { std::ptr::read_unaligned(buf.add(off.offset) as *const f64) }, None => 0.0 }"@
    } else if type_ == "bool"@ {
        "match offsets."@ + field + " { Some(ref off) => unsafe { std::ptr::read_unaligned(buf.add(off.offset)) != 0 }, None => false }"@
    } else {
        "match offsets."@ + field + " { Some(ref off) => unsafe { std::ptr::read_unaligned(buf.add(off.offset) as *const i32) }, None => 0 }"@
    }
}

/// Whether `part` occurs in `s`.
pub open spec fn has_text(s: Seq<char>, part: Seq<char>) -> bool {
    exists|i: int| 0 <= i && i + part.len() <= s.len() && #[trigger] s.subrange(i, i + part.len()) == part
}

proof fn lemma_has_text_at(s: Seq<char>, part: Seq<char>, i: int)
    requires
        0 <= i,
        i + part.len() <= s.len(),
        s.subrange(i, i + part.len()) == part,
    ensures
        has_text(s, part),
{
}

/// The generated reader reads a variable's bytes as the type of the field
/// it fills: for an `f32`, `f64` or `i32` scalar the field has that type and
/// the buffer pointer is cast to `*const` that type; for an array of one of
/// them the field is a `Vec` of it and the elements are read through a
/// pointer cast to `*const` the element type.
pub proof fn lemma_read_matches_field_type(type_: Seq<char>, count: u32, field: Seq<char>)
    requires
        type_ == "f32"@ || type_ == "f64"@ || type_ == "i32"@,
    ensures
        count <= 1 ==> spec_rust_type(type_, count) == type_ && has_text(
            raw_extract(type_, count, field),
            " as *const "@ + type_ + ")"@,
        ),
        count > 1 ==> spec_rust_type(type_, count) == "Vec<"@ + type_ + ">"@ && has_text(
            raw_extract(type_, count, field),
            "as *const "@ + type_ + ";"@,
        ),
{
    reveal_strlit(" as *const ");
    reveal_strlit("as *const ");
    reveal_strlit(")");
    reveal_strlit(";");
    reveal_strlit("f32");
    reveal_strlit("f64");
    reveal_strlit("i32");
    reveal_strlit("bool");
    let head = "match offsets."@ + field;
    if count <= 1 {
        let part = " as *const "@ + type_ + ")"@;
        if type_ == "f32"@ {
            let l = " { Some(ref off) => unsafe { std::ptr::read_unaligned(buf.add(off.offset) as *const f32) }, None => 0.0 }"@;
            reveal_strlit(" { Some(ref off) => unsafe { std::ptr::read_unaligned(buf.add(off.offset) as *const f32) }, None => 0.0 }");
            reveal_strlit("f32");
            assert(raw_extract(type_, count, field) == head + l);
            let m = part.len() as int;
            let h = head.len() as int;
            assert(l.subrange(73, 73 + m) =~= part);
            assert((head + l).subrange(h + 73, h + 73 + m) =~= l.subrange(73, 73 + m));
            lemma_has_text_at(head + l, part, h + 73);
        }
        if type_ == "f64"@ {
            let l = " { Some(ref off) => unsafe { std::ptr::read_unaligned(buf.add(off.offset) as *const f64) }, None => 0.0 }"@;
            reveal_strlit(" { Some(ref off) => unsafe { std::ptr::read_unaligned(buf.add(off.offset) as *const f64) }, None => 0.0 }");
            reveal_strlit("f64");
            assert("f64"@[1] != "f32"@[1]);
            assert(raw_extract(type_, count, field) == head + l);
            let m = part.len() as int;
            let h = head.len() as int;
            assert(l.subrange(73, 73 + m) =~= part);
            assert((head + l).subrange(h + 73, h + 73 + m) =~= l.subrange(73, 73 + m));
            lemma_has_text_at(head + l, part, h + 73);
        }
        if type_ == "i32"@ {
            let l = " { Some(ref off) => unsafe { std::ptr::read_unaligned(buf.add(off.offset) as *const i32) }, None => 0 }"@;
            reveal_strlit(" { Some(ref off) => unsafe { std::ptr::read_unaligned(buf.add(off.offset) as *const i32) }, None => 0 }");
            reveal_strlit("i32");
            assert("i32"@[0] != "f32"@[0]);
            assert("i32"@[0] != "f64"@[0]);
            assert("i32"@.len() != "bool"@.len());
            assert(raw_extract(type_, count, field) == head + l);
            let m = part.len() as int;
            let h = head.len() as int;
            assert(l.subrange(73, 73 + m) =~= part);
            assert((head + l).subrange(h + 73, h + 73 + m) =~= l.subrange(73, 73 + m));
            lemma_has_text_at(head + l, part, h + 73);
        }
    } else {
        reveal_strlit("Vec<");
        reveal_strlit(">");
        reveal_strlit("Vec<f32>");
        reveal_strlit("Vec<f64>");
        reveal_strlit("Vec<i32>");
        reveal_strlit("as *const f32");
        reveal_strlit("as *const f64");
        reveal_strlit("as *const i32");
        let a1 = " {\n                Some(ref off) => unsafe {\n                    let src = buf.add(off.offset) "@;
        let a2 = ";\n                    (0..off.count).map(|i| std::ptr::read_unaligned(src.add(i))).collect()\n                },\n                None => Vec::new(),\n            }"@;
        reveal_strlit(";\n                    (0..off.count).map(|i| std::ptr::read_unaligned(src.add(i))).collect()\n                },\n                None => Vec::new(),\n            }");
        let part = "as *const "@ + type_ + ";"@;
        let pc = pointer_cast(type_);
        assert(type_.len() != "bool"@.len());
        assert(raw_extract(type_, count, field) == head + a1 + pc + a2);
        assert(pc =~= "as *const "@ + type_);
        let whole = head + a1 + pc + a2;
        let at = (head.len() + a1.len()) as int;
        assert(whole.subrange(at, at + part.len() as int) =~= part);
        lemma_has_text_at(whole, part, at);
    }
}


/// A `bool` variable is read as a flag set when its byte is non-zero: a
/// scalar fills a `bool` field from its one byte, an array a `Vec<bool>` from
/// one byte per element.
pub proof fn lemma_bool_reads_nonzero(count: u32, field: Seq<char>)
    ensures
        count <= 1 ==> spec_rust_type("bool"@, count) == "bool"@ && has_text(
            raw_extract("bool"@, count, field),
            "buf.add(off.offset)) != 0"@,
        ),
        count > 1 ==> spec_rust_type("bool"@, count) == "Vec<bool>"@ && has_text(
            raw_extract("bool"@, count, field),
            "*ptr.add(idx) != 0"@,
        ),
{
    reveal_strlit("bool");
    reveal_strlit("f32");
    reveal_strlit("f64");
    reveal_strlit("i32");
    let head = "match offsets."@ + field;
    let h = head.len() as int;
    if count <= 1 {
        let l = " { Some(ref off) => unsafe { std::ptr::read_unaligned(buf.add(off.offset)) != 0 }, None => false }"@;
        reveal_strlit(" { Some(ref off) => unsafe { std::ptr::read_unaligned(buf.add(off.offset)) != 0 }, None => false }");
        let part = "buf.add(off.offset)) != 0"@;
        reveal_strlit("buf.add(off.offset)) != 0");
        assert("bool"@.len() != "f32"@.len());
        assert(raw_extract("bool"@, count, field) == head + l);
        let m = part.len() as int;
        assert(l.subrange(54, 54 + m) =~= part);
        assert((head + l).subrange(h + 54, h + 54 + m) =~= l.subrange(54, 54 + m));
        lemma_has_text_at(head + l, part, h + 54);
    } else {
        let l = " {\n                Some(ref off) => unsafe {\n                    let ptr = buf.add(off.offset);\n                    let mut vec = Vec::with_capacity(off.count);\n                    for idx in 0..off.count {\n                        vec.push(*ptr.add(idx) != 0);\n                    }\n                    vec\n                },\n                None => Vec::new(),\n            }"@;
        reveal_strlit(" {\n                Some(ref off) => unsafe {\n                    let ptr = buf.add(off.offset);\n                    let mut vec = Vec::with_capacity(off.count);\n                    for idx in 0..off.count {\n                        vec.push(*ptr.add(idx) != 0);\n                    }\n                    vec\n                },\n                None => Vec::new(),\n            }");
        let part = "*ptr.add(idx) != 0"@;
        reveal_strlit("*ptr.add(idx) != 0");
        assert("bool"@.len() != "f32"@.len() && "bool"@.len() != "f64"@.len() && "bool"@.len()
            != "i32"@.len());
        assert(raw_extract("bool"@, count, field) == head + l);
        let m = part.len() as int;
        assert(l.subrange(240, 240 + m) =~= part);
        assert((head + l).subrange(h + 240, h + 240 + m) =~= l.subrange(240, 240 + m));
        lemma_has_text_at(head + l, part, h + 240);
    }
}

/// The pointer cast an array element of `type_` is read through.
pub open spec fn pointer_cast(type_: Seq<char>) -> Seq<char> {
    if type_ == "f32"@ {
        "as *const f32"@
    } else if type_ == "f64"@ {
        "as *const f64"@
    } else {
        "as *const i32"@
    }
}

/// The Rust type of the field that holds a variable.
pub open spec fn spec_rust_type(type_: Seq<char>, count: u32) -> Seq<char> {
    if count > 1 {
        if type_ == "f32"@ {
            "Vec<f32>"@
        } else if type_ == "f64"@ {
            "Vec<f64>"@
        } else if type_ == "i32"@ {
            "Vec<i32>"@
        } else if type_ == "bool"@ {
            "Vec<bool>"@
        } else {
            "Vec<i32>"@
        }
    } else {
        type_
    }
}

/// The Rust type of the field that holds a variable: a `Vec` of the element
/// type for arrays (of `i32` for an unknown one), the element type itself
/// for scalars.
pub fn rust_type(type_: &str, count: u32) -> (r: String)
    ensures
        r@ == spec_rust_type(type_@, count),
{
    if count > 1 {
        if str_equal(type_, "f32") {
            String::from_str("Vec<f32>")
        } else if str_equal(type_, "f64") {
            String::from_str("Vec<f64>")
        } else if str_equal(type_, "i32") {
            String::from_str("Vec<i32>")
        } else if str_equal(type_, "bool") {
            String::from_str("Vec<bool>")
        } else {
            String::from_str("Vec<i32>")
        }
    } else {
        String::from_str(type_)
    }
}

/// The expression that reads the variable behind `field_name` out of the
/// data buffer `buf`, through the resolved offset table `offsets`, as text.
/// A variable absent from the session reads as zero, `false` or empty.
pub fn raw_extract_expr(type_: &str, count: u32, field_name: &str) -> (r: String)
    ensures
        r@ == raw_extract(type_@, count, field_name@),
{
    if count > 1 {
        if str_equal(type_, "bool") {
            let mut s = String::from_str("match offsets.");
            s.append(field_name);
            s.append(" {\n                Some(ref off) => unsafe {\n                    let ptr = buf.add(off.offset);\n                    let mut vec = Vec::with_capacity(off.count);\n                    for idx in 0..off.count {\n                        vec.push(*ptr.add(idx) != 0);\n                    }\n                    vec\n                },\n                None => Vec::new(),\n            }");
            s
        } else {
            let cast = if str_equal(type_, "f32") {
                "as *const f32"
            } else if str_equal(type_, "f64") {
                "as *const f64"
            } else {
                "as *const i32"
            };
            let mut s = String::from_str("match offsets.");
            s.append(field_name);
            s.append(" {\n                Some(ref off) => unsafe {\n                    let src = buf.add(off.offset) ");
            s.append(cast);
            s.append(";\n                    (0..off.count).map(|i| std::ptr::read_unaligned(src.add(i))).collect()\n                },\n                None => Vec::new(),\n            }");
            s
        }
    } else {
        let (head, tail) = if str_equal(type_, "f32") {
            ("match offsets.", " { Some(ref off) => unsafe { std::ptr::read_unaligned(buf.add(off.offset) as *const f32) }, None => 0.0 }")
        } else if str_equal(type_, "f64") {
            ("match offsets.", " { Some(ref off) => unsafe { std::ptr::read_unaligned(buf.add(off.offset) as *const f64) }, None => 0.0 }")
        } else if str_equal(type_, "bool") {
            ("match offsets.", " { Some(ref off) => unsafe { std::ptr::read_unaligned(buf.add(off.offset)) != 0 }, None => false }")
        } else {
            ("match offsets.", " { Some(ref off) => unsafe { std::ptr::read_unaligned(buf.add(off.offset) as *const i32) }, None => 0 }")
        };
        let mut s = String::from_str(head);
        s.append(field_name);
        s.append(tail);
        s
    }
}

/// `c` as it appears inside a TOML basic string.
pub open spec fn toml_escape_char(c: char) -> Seq<char> {
    if c == '\\' {
        seq!['\\', '\\']
    } else if c == '"' {
        seq!['\\', '"']
    } else {
        seq![c]
    }
}

/// `s` with backslashes and double quotes escaped.
pub open spec fn toml_escaped(s: Seq<char>) -> Seq<char>
    decreases s.len(),
{
    if s.len() == 0 {
        seq![]
    } else {
        toml_escaped(s.drop_last()) + toml_escape_char(s.last())
    }
}

/// `s` as a TOML basic string.
pub open spec fn toml_quoted(s: Seq<char>) -> Seq<char> {
    seq!['"'] + toml_escaped(s) + seq!['"']
}

/// Reads back the escapes of [`toml_escaped`]: a backslash stands for the
/// character after it.
pub open spec fn toml_unescaped(t: Seq<char>) -> Seq<char>
    decreases t.len(),
{
    if t.len() == 0 {
        seq![]
    } else if t[0] == '\\' && t.len() >= 2 {
        seq![t[1]] + toml_unescaped(t.skip(2))
    } else {
        seq![t[0]] + toml_unescaped(t.skip(1))
    }
}

proof fn lemma_toml_escaped_concat(a: Seq<char>, b: Seq<char>)
    ensures
        toml_escaped(a + b) == toml_escaped(a) + toml_escaped(b),
    decreases b.len(),
{
    if b.len() == 0 {
        assert(a + b =~= a);
    } else {
        lemma_toml_escaped_concat(a, b.drop_last());
        assert((a + b).drop_last() =~= a + b.drop_last());
    }
}

/// Escaping loses nothing: reading the escapes back gives the text.
pub proof fn lemma_toml_escape_reversible(s: Seq<char>)
    ensures
        toml_unescaped(toml_escaped(s)) == s,
    decreases s.len(),
{
    if s.len() > 0 {
        let c = s[0];
        let rest = s.skip(1);
        lemma_toml_escaped_concat(seq![c], rest);
        assert(seq![c] + rest =~= s);
        assert(seq![c].drop_last() =~= Seq::<char>::empty());
        assert(seq![c].last() == c);
        assert(toml_escaped(Seq::<char>::empty()) =~= Seq::<char>::empty());
        assert(toml_escaped(seq![c]) =~= toml_escape_char(c));
        lemma_toml_escape_reversible(rest);
        let t = toml_escaped(s);
        let e = toml_escape_char(c);
        assert(t =~= e + toml_escaped(rest));
        if c == '\\' || c == '"' {
            assert(t.skip(2) =~= toml_escaped(rest));
        } else {
            assert(t.skip(1) =~= toml_escaped(rest));
        }
        assert(seq![c] + rest =~= s);
    }
}

/// Distinct texts render as distinct TOML strings, so no two descriptions
/// or units in a catalogue can be confused once written.
pub proof fn lemma_toml_quoted_injective(a: Seq<char>, b: Seq<char>)
    requires
        toml_quoted(a) == toml_quoted(b),
    ensures
        a == b,
{
    let qa = toml_quoted(a);
    assert(qa.subrange(1, qa.len() - 1) =~= toml_escaped(a));
    assert(qa.subrange(1, qa.len() - 1) =~= toml_escaped(b));
    lemma_toml_escape_reversible(a);
    lemma_toml_escape_reversible(b);
}

/// Renders a TOML basic string. Descriptions come from shared memory and are
/// not guaranteed to be free of quotes or backslashes, so they are escaped
/// rather than interpolated raw.
pub fn toml_string(value: &str) -> (r: String)
    ensures
        r@ == toml_quoted(value@),
{
    let chars = chars_of(value);
    let mut out = String::new();
    push_char(&mut out, '"');
    let mut i: usize = 0;
    while i < chars.len()
        invariant
            i <= chars.len(),
            chars@ == value@,
            out@ == seq!['"'] + toml_escaped(chars@.take(i as int)),
        decreases chars.len() - i,
    {
        let c = chars[i];
        if c == '\\' {
            push_char(&mut out, '\\');
            push_char(&mut out, '\\');
        } else if c == '"' {
            push_char(&mut out, '\\');
            push_char(&mut out, '"');
        } else {
            push_char(&mut out, c);
        }
        proof {
            assert(chars@.take(i + 1).drop_last() =~= chars@.take(i as int));
            assert(out@ =~= seq!['"'] + toml_escaped(chars@.take(i + 1)));
        }
        i = i + 1;
    }
    push_char(&mut out, '"');
    proof {
        assert(chars@.take(chars.len() as int) =~= chars@);
    }
    out
}

/// The text of a list of definitions, each rendered by `f`, concatenated.
pub open spec fn concat_over(vars: Seq<VarDefView>, f: spec_fn(VarDefView) -> Seq<char>) -> Seq<
    char,
>
    decreases vars.len(),
{
    if vars.len() == 0 {
        seq![]
    } else {
        concat_over(vars.drop_last(), f) + f(vars.last())
    }
}

/// The comment block that opens a catalogue file.
pub open spec fn catalogue_header() -> Seq<char> {
    "# Catalogue of iRacing telemetry variables known to kerb.\n"@ + "# Source of truth for src/iracing/types.rs — see the README.\n"@ + "#\n"@ + "# The union over every car ever seen. iRacing declares only the variables the\n"@ + "# current car has, so entries are added by a merge and never removed by one;\n"@ + "# a variable absent from a session simply resolves to None at connect time.\n"@
}

/// The `count = ` line of a catalogue entry, present when the count is not 1.
pub open spec fn toml_count_line(v: VarDefView) -> Seq<char> {
    if v.count != 1 {
        "count = "@ + decimal(v.count as nat) + "\n"@
    } else {
        seq![]
    }
}

/// A `key = "text"` line of a catalogue entry, present when the text is not empty.
pub open spec fn toml_text_line(key: Seq<char>, text: Seq<char>) -> Seq<char> {
    if text.len() > 0 {
        key + toml_quoted(text) + "\n"@
    } else {
        seq![]
    }
}

/// One `[[var]]` table of the catalogue: name and type always, the count
/// when it is not 1, unit and description when they are not empty.
pub open spec fn toml_entry(v: VarDefView) -> Seq<char> {
    "\n[[var]]\n"@ + "name = "@ + toml_quoted(v.name) + "\n"@ + "type = "@ + toml_quoted(v.type_)
        + "\n"@ + toml_count_line(v) + toml_text_line("unit = "@, v.unit) + toml_text_line(
        "desc = "@,
        v.desc,
    )
}

/// The catalogue as a TOML file.
pub open spec fn catalogue_text(vars: Seq<VarDefView>) -> Seq<char> {
    catalogue_header() + concat_over(vars, |v: VarDefView| toml_entry(v))
}

fn append_toml_text_line(out: &mut String, key: &str, text: &String)
    ensures
        final(out)@ == old(out)@ + toml_text_line(key@, text@),
{
    if !text.as_str().is_empty() {
        out.append(key);
        out.append(toml_string(text.as_str()).as_str());
        out.append("\n");
    }
    proof {
        assert(final(out)@ =~= old(out)@ + toml_text_line(key@, text@));
    }
}

fn append_toml_count_line(out: &mut String, var: &VarDef)
    ensures
        final(out)@ == old(out)@ + toml_count_line(var@),
{
    if var.count != 1 {
        out.append("count = ");
        append_decimal(out, var.count as u64);
        out.append("\n");
    }
    proof {
        assert(final(out)@ =~= old(out)@ + toml_count_line(var@));
    }
}

fn append_toml_entry(out: &mut String, var: &VarDef)
    ensures
        final(out)@ == old(out)@ + toml_entry(var@),
{
    out.append("\n[[var]]\n");
    out.append("name = ");
    out.append(toml_string(var.name.as_str()).as_str());
    out.append("\n");
    out.append("type = ");
    out.append(toml_string(var.type_.as_str()).as_str());
    out.append("\n");
    append_toml_count_line(out, var);
    append_toml_text_line(out, "unit = ", &var.unit);
    append_toml_text_line(out, "desc = ", &var.desc);
    proof {
        assert(final(out)@ =~= old(out)@ + toml_entry(var@));
    }
}

/// Renders the catalogue back as TOML, sorted by name: entries of equal
/// name keep the order they had.
pub fn catalogue_to_toml(vars: &[VarDef]) -> (r: String)
    ensures
        exists|sorted: Seq<VarDefView>|
            #![auto]
            stably_sorted_by_name::<VarDef>(defs_view(vars@), sorted) && r@ == catalogue_text(
                sorted,
            ),
{
    let mut copy: Vec<VarDef> = Vec::new();
    let mut i: usize = 0;
    while i < vars.len()
        invariant
            i <= vars.len(),
            defs_view(copy@) == defs_view(vars@).take(i as int),
        decreases vars.len() - i,
    {
        let ghost before = copy@;
        copy.push(vars[i].duplicate());
        proof {
            assert(defs_view(copy@) =~= defs_view(before).push(vars@[i as int]@));
            assert(defs_view(vars@).take(i + 1) =~= defs_view(vars@).take(i as int).push(
                vars@[i as int]@,
            ));
        }
        i = i + 1;
    }
    assert(defs_view(vars@).take(vars.len() as int) =~= defs_view(vars@));
    let sorted = sort_by_name(copy);
    render_catalogue(sorted.as_slice())
}

/// The catalogue as TOML, entries in the order given.
fn render_catalogue(vars: &[VarDef]) -> (r: String)
    ensures
        r@ == catalogue_text(defs_view(vars@)),
{
    let mut out = String::new();
    out.append("# Catalogue of iRacing telemetry variables known to kerb.\n");
    out.append("# Source of truth for src/iracing/types.rs — see the README.\n");
    out.append("#\n");
    out.append("# The union over every car ever seen. iRacing declares only the variables the\n");
    out.append("# current car has, so entries are added by a merge and never removed by one;\n");
    out.append("# a variable absent from a session simply resolves to None at connect time.\n");
    let ghost head = out@;
    let ghost all = defs_view(vars@);
    proof {
        assert(head =~= catalogue_header());
        assert(all.take(0) =~= Seq::<VarDefView>::empty());
    }
    let mut i: usize = 0;
    while i < vars.len()
        invariant
            i <= vars.len(),
            all == defs_view(vars@),
            head == catalogue_header(),
            out@ == head + concat_over(all.take(i as int), |v: VarDefView| toml_entry(v)),
        decreases vars.len() - i,
    {
        append_toml_entry(&mut out, &vars[i]);
        proof {
            assert(all.take(i + 1).drop_last() =~= all.take(i as int));
            assert(all[i as int] == vars@[i as int]@);
            assert(out@ =~= head + concat_over(all.take(i + 1), |v: VarDefView| toml_entry(v)));
        }
        i = i + 1;
    }
    proof {
        assert(all.take(vars.len() as int) =~= all);
    }
    out
}

/// A description's unit, bracketed, when there is one.
pub open spec fn unit_suffix(unit: Seq<char>) -> Seq<char> {
    if unit.len() == 0 {
        seq![]
    } else {
        " ["@ + unit + "]"@
    }
}

/// The opening of the generated file, up to the offset table's fields.
pub open spec fn generated_preamble() -> Seq<char> {
    "// AUTOGENERATED FILE. Do not edit manually.\n"@ + "// To regenerate: run iracing_type_gen with iRacing open.\n"@ + "//   cargo run --manifest-path tools/iracing_type_gen/Cargo.toml -- src/iracing/types.rs\n\n"@ + "use std::collections::HashMap;\n\n"@ + "/// Information about a resolved telemetry variable offset and count in shared memory.\n"@ + "#[derive(Debug, Clone, Copy)]\n"@ + "pub struct IracingOffset {\n"@ + "    pub offset: usize,\n"@ + "    pub count: usize,\n"@ + "}\n\n"@ + "/// Cached shared memory offsets for all iRacing telemetry variables.\n"@ + "#[derive(Debug, Clone)]\n"@ + "pub struct IracingOffsets {\n"@
}

/// Closes the offset table and opens its resolver.
pub open spec fn generated_resolve_head() -> Seq<char> {
    "}\n\n"@ + "impl IracingOffsets {\n"@ + "    pub(crate) fn resolve(vars: &HashMap<String, crate::iracing::structs::irsdk_varHeader>) -> Self {\n"@ + "        Self {\n"@
}

/// Closes the resolver and opens the frame struct.
pub open spec fn generated_frame_head() -> Seq<char> {
    "        }\n"@ + "    }\n"@ + "}\n\n"@ + "/// Owned telemetry frame from iRacing. All fields populated in one SHM read.\n"@ + "#[derive(Debug, Clone)]\n"@ + "pub struct IracingFrame {\n"@
}

/// Closes the frame struct and opens its reader.
pub open spec fn generated_from_raw_head() -> Seq<char> {
    "}\n\n"@ + "impl IracingFrame {\n"@ + "    pub(crate) fn from_raw(buf: *const u8, offsets: &IracingOffsets) -> Self {\n"@ + "        Self {\n"@
}

/// Closes the reader and the file.
pub open spec fn generated_tail() -> Seq<char> {
    "        }\n"@ + "    }\n"@ + "}\n"@
}

/// The offset table's field for one variable.
pub open spec fn offsets_field(v: VarDefView) -> Seq<char> {
    "    /// "@ + v.desc + unit_suffix(v.unit) + "\n"@ + "    pub "@ + snake_case(v.name)
        + ": Option<IracingOffset>,\n"@
}

/// The resolver's line for one variable: its offset and count looked up by name.
pub open spec fn resolve_line(v: VarDefView) -> Seq<char> {
    "            "@ + snake_case(v.name) + ": vars.get(\""@ + v.name
        + "\").map(|v| IracingOffset { offset: v.offset as usize, count: v.count as usize }),\n"@
}

/// The frame struct's field for one variable.
pub open spec fn frame_field(v: VarDefView) -> Seq<char> {
    "    /// "@ + v.desc + unit_suffix(v.unit) + "\n"@ + "    pub "@ + snake_case(v.name) + ": "@
        + spec_rust_type(v.type_, v.count) + ",\n"@
}

/// The reader's line for one variable.
pub open spec fn from_raw_line(v: VarDefView) -> Seq<char> {
    "            "@ + snake_case(v.name) + ": "@ + raw_extract(v.type_, v.count, snake_case(v.name))
        + ",\n"@
}

/// The Rust source generated for a catalogue.
pub open spec fn generated_source(vars: Seq<VarDefView>) -> Seq<char> {
    generated_preamble() + concat_over(vars, |v: VarDefView| offsets_field(v))
        + generated_resolve_head() + concat_over(vars, |v: VarDefView| resolve_line(v))
        + generated_frame_head() + concat_over(vars, |v: VarDefView| frame_field(v))
        + generated_from_raw_head() + concat_over(vars, |v: VarDefView| from_raw_line(v))
        + generated_tail()
}

fn append_unit_suffix(out: &mut String, unit: &String)
    ensures
        final(out)@ == old(out)@ + unit_suffix(unit@),
{
    if !unit.as_str().is_empty() {
        out.append(" [");
        out.append(unit.as_str());
        out.append("]");
    }
    proof {
        assert(final(out)@ =~= old(out)@ + unit_suffix(unit@));
    }
}

fn append_offsets_field(out: &mut String, v: &VarDef)
    ensures
        final(out)@ == old(out)@ + offsets_field(v@),
{
    let field = camel_to_snake(v.name.as_str());
    out.append("    /// ");
    out.append(v.desc.as_str());
    append_unit_suffix(out, &v.unit);
    out.append("\n");
    out.append("    pub ");
    out.append(field.as_str());
    out.append(": Option<IracingOffset>,\n");
    proof {
        assert(final(out)@ =~= old(out)@ + offsets_field(v@));
    }
}

fn append_resolve_line(out: &mut String, v: &VarDef)
    ensures
        final(out)@ == old(out)@ + resolve_line(v@),
{
    let field = camel_to_snake(v.name.as_str());
    out.append("            ");
    out.append(field.as_str());
    out.append(": vars.get(\"");
    out.append(v.name.as_str());
    out.append("\").map(|v| IracingOffset { offset: v.offset as usize, count: v.count as usize }),\n");
    proof {
        assert(final(out)@ =~= old(out)@ + resolve_line(v@));
    }
}

fn append_frame_field(out: &mut String, v: &VarDef)
    ensures
        final(out)@ == old(out)@ + frame_field(v@),
{
    let field = camel_to_snake(v.name.as_str());
    out.append("    /// ");
    out.append(v.desc.as_str());
    append_unit_suffix(out, &v.unit);
    out.append("\n");
    out.append("    pub ");
    out.append(field.as_str());
    out.append(": ");
    out.append(rust_type(v.type_.as_str(), v.count).as_str());
    out.append(",\n");
    proof {
        assert(final(out)@ =~= old(out)@ + frame_field(v@));
    }
}

fn append_from_raw_line(out: &mut String, v: &VarDef)
    ensures
        final(out)@ == old(out)@ + from_raw_line(v@),
{
    let field = camel_to_snake(v.name.as_str());
    out.append("            ");
    out.append(field.as_str());
    out.append(": ");
    out.append(raw_extract_expr(v.type_.as_str(), v.count, field.as_str()).as_str());
    out.append(",\n");
    proof {
        assert(final(out)@ =~= old(out)@ + from_raw_line(v@));
    }
}

fn append_all_offsets_field(out: &mut String, vars: &[VarDef])
    ensures
        final(out)@ == old(out)@ + concat_over(defs_view(vars@), |v: VarDefView| offsets_field(v)),
{
    let ghost start = out@;
    let ghost all = defs_view(vars@);
    proof {
        assert(all.take(0) =~= Seq::<VarDefView>::empty());
        assert(out@ =~= start + concat_over(all.take(0), |v: VarDefView| offsets_field(v)));
    }
    let mut i: usize = 0;
    while i < vars.len()
        invariant
            i <= vars.len(),
            all == defs_view(vars@),
            out@ == start + concat_over(all.take(i as int), |v: VarDefView| offsets_field(v)),
        decreases vars.len() - i,
    {
        append_offsets_field(out, &vars[i]);
        proof {
            assert(all.take(i + 1).drop_last() =~= all.take(i as int));
            assert(all[i as int] == vars@[i as int]@);
            assert(out@ =~= start + concat_over(all.take(i + 1), |v: VarDefView| offsets_field(v)));
        }
        i = i + 1;
    }
    proof {
        assert(all.take(vars.len() as int) =~= all);
    }
}

fn append_all_resolve_line(out: &mut String, vars: &[VarDef])
    ensures
        final(out)@ == old(out)@ + concat_over(defs_view(vars@), |v: VarDefView| resolve_line(v)),
{
    let ghost start = out@;
    let ghost all = defs_view(vars@);
    proof {
        assert(all.take(0) =~= Seq::<VarDefView>::empty());
        assert(out@ =~= start + concat_over(all.take(0), |v: VarDefView| resolve_line(v)));
    }
    let mut i: usize = 0;
    while i < vars.len()
        invariant
            i <= vars.len(),
            all == defs_view(vars@),
            out@ == start + concat_over(all.take(i as int), |v: VarDefView| resolve_line(v)),
        decreases vars.len() - i,
    {
        append_resolve_line(out, &vars[i]);
        proof {
            assert(all.take(i + 1).drop_last() =~= all.take(i as int));
            assert(all[i as int] == vars@[i as int]@);
            assert(out@ =~= start + concat_over(all.take(i + 1), |v: VarDefView| resolve_line(v)));
        }
        i = i + 1;
    }
    proof {
        assert(all.take(vars.len() as int) =~= all);
    }
}

fn append_all_frame_field(out: &mut String, vars: &[VarDef])
    ensures
        final(out)@ == old(out)@ + concat_over(defs_view(vars@), |v: VarDefView| frame_field(v)),
{
    let ghost start = out@;
    let ghost all = defs_view(vars@);
    proof {
        assert(all.take(0) =~= Seq::<VarDefView>::empty());
        assert(out@ =~= start + concat_over(all.take(0), |v: VarDefView| frame_field(v)));
    }
    let mut i: usize = 0;
    while i < vars.len()
        invariant
            i <= vars.len(),
            all == defs_view(vars@),
            out@ == start + concat_over(all.take(i as int), |v: VarDefView| frame_field(v)),
        decreases vars.len() - i,
    {
        append_frame_field(out, &vars[i]);
        proof {
            assert(all.take(i + 1).drop_last() =~= all.take(i as int));
            assert(all[i as int] == vars@[i as int]@);
            assert(out@ =~= start + concat_over(all.take(i + 1), |v: VarDefView| frame_field(v)));
        }
        i = i + 1;
    }
    proof {
        assert(all.take(vars.len() as int) =~= all);
    }
}

fn append_all_from_raw_line(out: &mut String, vars: &[VarDef])
    ensures
        final(out)@ == old(out)@ + concat_over(defs_view(vars@), |v: VarDefView| from_raw_line(v)),
{
    let ghost start = out@;
    let ghost all = defs_view(vars@);
    proof {
        assert(all.take(0) =~= Seq::<VarDefView>::empty());
        assert(out@ =~= start + concat_over(all.take(0), |v: VarDefView| from_raw_line(v)));
    }
    let mut i: usize = 0;
    while i < vars.len()
        invariant
            i <= vars.len(),
            all == defs_view(vars@),
            out@ == start + concat_over(all.take(i as int), |v: VarDefView| from_raw_line(v)),
        decreases vars.len() - i,
    {
        append_from_raw_line(out, &vars[i]);
        proof {
            assert(all.take(i + 1).drop_last() =~= all.take(i as int));
            assert(all[i as int] == vars@[i as int]@);
            assert(out@ =~= start + concat_over(all.take(i + 1), |v: VarDefView| from_raw_line(v)));
        }
        i = i + 1;
    }
    proof {
        assert(all.take(vars.len() as int) =~= all);
    }
}

/// Generates the Rust source of the typed frame for a catalogue: the offset
/// table (`IracingOffsets`) with its resolver, and the frame struct
/// (`IracingFrame`) with the reader that fills it from a data buffer.
pub fn generate_from_defs(vars: &[VarDef]) -> (r: String)
    ensures
        r@ == generated_source(defs_view(vars@)),
{
    let mut out = String::new();
    out.append("// AUTOGENERATED FILE. Do not edit manually.\n");
    out.append("// To regenerate: run iracing_type_gen with iRacing open.\n");
    out.append("//   cargo run --manifest-path tools/iracing_type_gen/Cargo.toml -- src/iracing/types.rs\n\n");
    out.append("use std::collections::HashMap;\n\n");
    out.append("/// Information about a resolved telemetry variable offset and count in shared memory.\n");
    out.append("#[derive(Debug, Clone, Copy)]\n");
    out.append("pub struct IracingOffset {\n");
    out.append("    pub offset: usize,\n");
    out.append("    pub count: usize,\n");
    out.append("}\n\n");
    out.append("/// Cached shared memory offsets for all iRacing telemetry variables.\n");
    out.append("#[derive(Debug, Clone)]\n");
    out.append("pub struct IracingOffsets {\n");
    append_all_offsets_field(&mut out, vars);
    out.append("}\n\n");
    out.append("impl IracingOffsets {\n");
    out.append("    pub(crate) fn resolve(vars: &HashMap<String, crate::iracing::structs::irsdk_varHeader>) -> Self {\n");
    out.append("        Self {\n");
    append_all_resolve_line(&mut out, vars);
    out.append("        }\n");
    out.append("    }\n");
    out.append("}\n\n");
    out.append("/// Owned telemetry frame from iRacing. All fields populated in one SHM read.\n");
    out.append("#[derive(Debug, Clone)]\n");
    out.append("pub struct IracingFrame {\n");
    append_all_frame_field(&mut out, vars);
    out.append("}\n\n");
    out.append("impl IracingFrame {\n");
    out.append("    pub(crate) fn from_raw(buf: *const u8, offsets: &IracingOffsets) -> Self {\n");
    out.append("        Self {\n");
    append_all_from_raw_line(&mut out, vars);
    out.append("        }\n");
    out.append("    }\n");
    out.append("}\n");
    proof {
        assert(out@ =~= generated_source(defs_view(vars@)));
    }
    out
}

// ---------------------------------------------------------------------------
// What a merge keeps.
/// `first_index_of` finds the first entry with the name, and only fails
/// when there is none.
proof fn lemma_first_index(defs: Seq<VarDefView>, name: Seq<char>)
    ensures
        first_index_of(defs, name) >= 0 <==> has_name(defs, name),
        first_index_of(defs, name) >= 0 ==> {
            let k = first_index_of(defs, name);
            &&& 0 <= k < defs.len()
            &&& defs[k].name == name
            &&& forall|j: int| 0 <= j < k ==> #[trigger] defs[j].name != name
        },
    decreases defs.len(),
{
    if defs.len() > 0 {
        let init = defs.drop_last();
        lemma_first_index(init, name);
        if has_name(init, name) {
            let j = choose|j: int| 0 <= j < init.len() && #[trigger] init[j].name == name;
            assert(defs[j].name == name);
        }
        if has_name(defs, name) && !has_name(init, name) {
            let j = choose|j: int| 0 <= j < defs.len() && #[trigger] defs[j].name == name;
            if j < defs.len() - 1 {
                assert(init[j].name == name);
            }
        }
        if first_index_of(init, name) >= 0 {
            let k = first_index_of(init, name);
            assert forall|j: int| 0 <= j < k implies #[trigger] defs[j].name != name by {
                assert(init[j] == defs[j]);
            }
        } else {
            assert forall|j: int| 0 <= j < defs.len() - 1 implies #[trigger] defs[j].name
                != name by {
                assert(init[j] == defs[j]);
                if defs[j].name == name {
                    assert(has_name(init, name));
                }
            }
        }
    }
}

/// Replacing an entry by one of the same name moves no name's first entry.
proof fn lemma_first_index_update(defs: Seq<VarDefView>, k: int, u: VarDefView, name: Seq<char>)
    requires
        0 <= k < defs.len(),
        u.name == defs[k].name,
    ensures
        first_index_of(defs.update(k, u), name) == first_index_of(defs, name),
    decreases defs.len(),
{
    let d2 = defs.update(k, u);
    if k < defs.len() - 1 {
        assert(d2.drop_last() =~= defs.drop_last().update(k, u));
        lemma_first_index_update(defs.drop_last(), k, u, name);
    } else {
        assert(d2.drop_last() =~= defs.drop_last());
    }
}

/// The entry holding `name` first.
pub open spec fn holder(defs: Seq<VarDefView>, name: Seq<char>) -> VarDefView {
    defs[first_index_of(defs, name)]
}

/// What one merge step does to a name's first entry: the incoming name's
/// entry is the updated holder (or the incoming one when new); every other
/// name keeps its holder.
proof fn lemma_merge_one_holder(m: Seq<VarDefView>, x: VarDefView, name: Seq<char>)
    ensures
        has_name(merge_one(m, x), name) <==> (has_name(m, name) || x.name == name),
        name != x.name && has_name(m, name) ==> holder(merge_one(m, x), name) == holder(m, name),
        name == x.name ==> holder(merge_one(m, x), name) == (if has_name(m, name) {
            updated(holder(m, name), x)
        } else {
            x
        }),
{
    lemma_first_index(m, x.name);
    lemma_first_index(m, name);
    let k = first_index_of(m, x.name);
    let r = merge_one(m, x);
    if k < 0 {
        assert(r.drop_last() =~= m);
        lemma_first_index(r, name);
        if has_name(r, name) && !has_name(m, name) {
            let j = choose|j: int| 0 <= j < r.len() && #[trigger] r[j].name == name;
            if j < m.len() {
                assert(m[j].name == name);
            }
        }
        if has_name(m, name) {
            let j = choose|j: int| 0 <= j < m.len() && #[trigger] m[j].name == name;
            assert(r[j].name == name);
        }
        if x.name == name {
            assert(r[m.len() as int].name == name);
        }
    } else {
        let u = updated(m[k], x);
        lemma_first_index_update(m, k, u, name);
        lemma_first_index(r, name);
        if has_name(r, name) {
            let j = choose|j: int| 0 <= j < r.len() && #[trigger] r[j].name == name;
            if j == k {
                assert(m[k].name == name);
            } else {
                assert(m[j].name == name);
            }
        }
        if has_name(m, name) {
            let j = choose|j: int| 0 <= j < m.len() && #[trigger] m[j].name == name;
            if j == k {
                assert(r[k].name == name);
            } else {
                assert(r[j].name == name);
            }
        }
    }
}

/// The names of a merged catalogue are those of the catalogue and the session.
proof fn lemma_merge_all_names(cat: Seq<VarDefView>, ses: Seq<VarDefView>, name: Seq<char>)
    ensures
        has_name(merge_all(cat, ses), name) <==> (has_name(cat, name) || has_name(ses, name)),
    decreases ses.len(),
{
    if ses.len() > 0 {
        let init = ses.drop_last();
        lemma_merge_all_names(cat, init, name);
        lemma_merge_one_holder(merge_all(cat, init), ses.last(), name);
        if has_name(init, name) {
            let j = choose|j: int| 0 <= j < init.len() && #[trigger] init[j].name == name;
            assert(ses[j].name == name);
        }
        if has_name(ses, name) && !has_name(init, name) {
            let j = choose|j: int| 0 <= j < ses.len() && #[trigger] ses[j].name == name;
            if j < ses.len() - 1 {
                assert(init[j].name == name);
            }
        }
    }
}

/// A stable sort keeps every name, and the first entry of each.
proof fn lemma_named_first(defs: Seq<VarDefView>, name: Seq<char>)
    ensures
        has_name(defs, name) <==> named::<VarDef>(defs, name).len() > 0,
        has_name(defs, name) ==> named::<VarDef>(defs, name)[0] == holder(defs, name),
    decreases defs.len(),
{
    if defs.len() > 0 {
        let init = defs.drop_last();
        lemma_named_first(init, name);
        lemma_first_index(defs, name);
        lemma_first_index(init, name);
        if has_name(init, name) {
            let j = choose|j: int| 0 <= j < init.len() && #[trigger] init[j].name == name;
            assert(defs[j].name == name);
        }
        if has_name(defs, name) && !has_name(init, name) {
            let j = choose|j: int| 0 <= j < defs.len() && #[trigger] defs[j].name == name;
            if j < defs.len() - 1 {
                assert(init[j].name == name);
            }
        }
    }
}

/// The catalogue a merge produces holds exactly the names of the catalogue
/// and of the session: no entry is ever removed, and every variable the
/// session declares is present.
pub proof fn lemma_merge_keeps_every_name(
    catalogue: Seq<VarDefView>,
    session: Seq<VarDefView>,
    merged: Seq<VarDefView>,
    name: Seq<char>,
)
    requires
        stably_sorted_by_name::<VarDef>(merge_all(catalogue, session), merged),
    ensures
        has_name(merged, name) <==> (has_name(catalogue, name) || has_name(session, name)),
{
    lemma_merge_all_names(catalogue, session, name);
    lemma_named_first(merge_all(catalogue, session), name);
    lemma_named_first(merged, name);
    assert(named::<VarDef>(merged, name) == named::<VarDef>(merge_all(catalogue, session), name));
}

/// Whether no two session entries share a name.
pub open spec fn distinct_names(defs: Seq<VarDefView>) -> bool {
    forall|i: int, j: int| 0 <= i < j < defs.len() ==> #[trigger] defs[i].name != #[trigger] defs[j].name
}

/// The entry a merge gives a session variable: the session's own when the
/// catalogue lacks the name, else the catalogue's entry updated by it.
pub open spec fn merged_entry(catalogue: Seq<VarDefView>, incoming: VarDefView) -> VarDefView {
    if has_name(catalogue, incoming.name) {
        updated(holder(catalogue, incoming.name), incoming)
    } else {
        incoming
    }
}

proof fn lemma_merge_all_holder(cat: Seq<VarDefView>, ses: Seq<VarDefView>, name: Seq<char>)
    requires
        distinct_names(ses),
    ensures
        !has_name(ses, name) && has_name(cat, name) ==> holder(merge_all(cat, ses), name) == holder(
            cat,
            name,
        ),
        forall|i: int|
            0 <= i < ses.len() && #[trigger] ses[i].name == name ==> holder(merge_all(cat, ses), name)
                == merged_entry(cat, ses[i]),
    decreases ses.len(),
{
    if ses.len() > 0 {
        let init = ses.drop_last();
        let x = ses.last();
        assert forall|i: int, j: int| 0 <= i < j < init.len() implies #[trigger] init[i].name
            != #[trigger] init[j].name by {
            assert(ses[i].name != ses[j].name);
        }
        lemma_merge_all_holder(cat, init, name);
        lemma_merge_all_names(cat, init, name);
        lemma_merge_one_holder(merge_all(cat, init), x, name);
        if has_name(init, name) {
            let j = choose|j: int| 0 <= j < init.len() && #[trigger] init[j].name == name;
            assert(ses[j].name == name);
        }
        if x.name == name {
            assert(!has_name(init, name)) by {
                if has_name(init, name) {
                    let j = choose|j: int| 0 <= j < init.len() && #[trigger] init[j].name == name;
                    assert(ses[j].name != ses[ses.len() - 1].name);
                }
            }
        }
        assert forall|i: int| 0 <= i < ses.len() && #[trigger] ses[i].name == name implies holder(
            merge_all(cat, ses),
            name,
        ) == merged_entry(cat, ses[i]) by {
            if i < ses.len() - 1 {
                assert(init[i] == ses[i]);
                assert(ses[i].name != ses[ses.len() - 1].name);
            }
        }
    }
}

/// The session wins on shape, and on unit and description wherever it
/// carries one: after a merge, the first entry holding a session variable's
/// name has the session's type and count, the session's unit and description
/// when they are not empty, and otherwise keeps what the catalogue had.
pub proof fn lemma_merge_session_wins(
    catalogue: Seq<VarDefView>,
    session: Seq<VarDefView>,
    merged: Seq<VarDefView>,
    i: int,
)
    requires
        stably_sorted_by_name::<VarDef>(merge_all(catalogue, session), merged),
        distinct_names(session),
        0 <= i < session.len(),
    ensures
        named::<VarDef>(merged, session[i].name).len() > 0,
        named::<VarDef>(merged, session[i].name)[0] == merged_entry(catalogue, session[i]),
        named::<VarDef>(merged, session[i].name)[0].type_ == session[i].type_,
        named::<VarDef>(merged, session[i].name)[0].count == session[i].count,
        session[i].desc.len() > 0 ==> named::<VarDef>(merged, session[i].name)[0].desc
            == session[i].desc,
        session[i].desc.len() == 0 && has_name(catalogue, session[i].name) ==> named::<VarDef>(
            merged,
            session[i].name,
        )[0].desc == holder(catalogue, session[i].name).desc,
        session[i].unit.len() > 0 ==> named::<VarDef>(merged, session[i].name)[0].unit
            == session[i].unit,
        session[i].unit.len() == 0 && has_name(catalogue, session[i].name) ==> named::<VarDef>(
            merged,
            session[i].name,
        )[0].unit == holder(catalogue, session[i].name).unit,
{
    let name = session[i].name;
    let m = merge_all(catalogue, session);
    assert(has_name(session, name));
    lemma_merge_all_names(catalogue, session, name);
    lemma_merge_all_holder(catalogue, session, name);
    lemma_named_first(m, name);
    assert(named::<VarDef>(merged, name) == named::<VarDef>(m, name));
}

/// The session's names the catalogue lacks, in session order.
pub open spec fn new_names(catalogue: Seq<VarDefView>, session: Seq<VarDefView>) -> Seq<Seq<char>>
    decreases session.len(),
{
    if session.len() == 0 {
        seq![]
    } else if has_name(catalogue, session.last().name) {
        new_names(catalogue, session.drop_last())
    } else {
        new_names(catalogue, session.drop_last()).push(session.last().name)
    }
}

/// The session's names that the catalogue holds with another type or
/// element count, in session order.
pub open spec fn reshaped_names(catalogue: Seq<VarDefView>, session: Seq<VarDefView>) -> Seq<
    Seq<char>,
>
    decreases session.len(),
{
    if session.len() == 0 {
        seq![]
    } else if has_name(catalogue, session.last().name) && reshaped(
        holder(catalogue, session.last().name),
        session.last(),
    ) {
        reshaped_names(catalogue, session.drop_last()).push(session.last().name)
    } else {
        reshaped_names(catalogue, session.drop_last())
    }
}

/// For a session naming each variable once, a merge reports as added exactly
/// the session's names the catalogue lacked, and as redefined exactly those
/// it held with another type or count, both in session order.
pub proof fn lemma_merge_report(catalogue: Seq<VarDefView>, session: Seq<VarDefView>)
    requires
        distinct_names(session),
    ensures
        added_names(catalogue, session) == new_names(catalogue, session),
        redefined_names(catalogue, session) == reshaped_names(catalogue, session),
    decreases session.len(),
{
    if session.len() > 0 {
        let init = session.drop_last();
        let x = session.last();
        assert forall|i: int, j: int| 0 <= i < j < init.len() implies #[trigger] init[i].name
            != #[trigger] init[j].name by {
            assert(session[i].name != session[j].name);
        }
        lemma_merge_report(catalogue, init);
        let before = merge_all(catalogue, init);
        assert(!has_name(init, x.name)) by {
            if has_name(init, x.name) {
                let j = choose|j: int| 0 <= j < init.len() && #[trigger] init[j].name == x.name;
                assert(session[j].name != session[session.len() - 1].name);
            }
        }
        lemma_merge_all_names(catalogue, init, x.name);
        lemma_first_index(before, x.name);
        lemma_merge_all_holder(catalogue, init, x.name);
    }
}

} // verus!
