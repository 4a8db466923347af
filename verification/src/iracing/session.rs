//! The iRacing session-info YAML, and path-based lookups into it.
use vstd::prelude::*;
use crate::text::{chars_of, str_equal};

verus! {

/// A YAML number: how it is written back out, and the sequence index it
/// matches as a mapping key (only a non-negative integer does).
#[derive(Debug, Clone)]
pub struct YamlNumber {
    pub text: String,
    pub index: Option<u64>,
}

/// A YAML document node.
#[derive(Debug)]
pub enum YamlValue {
    Null,
    Bool(bool),
    Number(YamlNumber),
    String(String),
    Sequence(Vec<YamlValue>),
    /// Entries in document order; keys are distinct.
    Mapping(Vec<(YamlValue, YamlValue)>),
    /// A value carrying a `!tag`.
    Tagged(String, Box<YamlValue>),
}

/// Parsed representation of the iRacing session-info YAML blob.
/// Retains the full document for ad-hoc, path-based lookups.
#[derive(Debug)]
pub struct IracingSession {
    pub raw_yaml: YamlValue,
}

#[verifier::external_type_specification]
#[verifier::external_body]
pub struct ExYamlValue(serde_yaml::Value);

/// The document `serde_yaml` parses from `text`, as the library's document
/// type; `None` when the text is not well-formed YAML.
pub uninterp spec fn yaml_document(text: Seq<char>) -> Option<YamlValue>;

/// `serde_yaml::from_str::<serde_yaml::Value>`, the parsed document
/// converted node for node (numbers kept as written, with the sequence
/// index they match as a key). What the parser makes of the text is named,
/// not described: YAML's grammar is the parser's.
#[verifier::external_body]
pub fn parse_yaml_document(text: &str) -> (r: Option<YamlValue>)
    ensures
        r == yaml_document(text@),
{
    match serde_yaml::from_str::<serde_yaml::Value>(text) {
        Ok(v) => Some(yaml_node(&v)),
        Err(_) => None,
    }
}

/// One `serde_yaml` node as the library's node, its children converted
/// the same way; used only by [`parse_yaml_document`].
#[verifier::external_body]
fn yaml_node(v: &serde_yaml::Value) -> YamlValue {
    match v {
        serde_yaml::Value::Null => YamlValue::Null,
        serde_yaml::Value::Bool(b) => YamlValue::Bool(*b),
        serde_yaml::Value::Number(n) => YamlValue::Number(YamlNumber { text: n.to_string(), index: n.as_u64() }),
        serde_yaml::Value::String(s) => YamlValue::String(s.clone()),
        serde_yaml::Value::Sequence(items) => YamlValue::Sequence(items.iter().map(yaml_node).collect()),
        serde_yaml::Value::Mapping(m) => YamlValue::Mapping(m.iter().map(|(k, v)| (yaml_node(k), yaml_node(v))).collect()),
        serde_yaml::Value::Tagged(t) => YamlValue::Tagged(t.tag.to_string(), Box::new(yaml_node(&t.value))),
    }
}

/// The value under any number of tags.
pub open spec fn untag(v: YamlValue) -> YamlValue
    decreases v,
{
    match v {
        YamlValue::Tagged(_, inner) => untag(*inner),
        _ => v,
    }
}

/// Whether a mapping key is the string `key`.
pub open spec fn key_is(k: YamlValue, key: Seq<char>) -> bool {
    k matches YamlValue::String(s) && s@ == key
}

/// Whether a mapping key is the number `idx`.
pub open spec fn key_is_index(k: YamlValue, idx: nat) -> bool {
    k matches YamlValue::Number(n) && n.index == Some(idx as u64)
}

/// The position of the first entry whose key satisfies `p`, or -1.
pub open spec fn first_key(entries: Seq<(YamlValue, YamlValue)>, p: spec_fn(YamlValue) -> bool) -> int
    decreases entries.len(),
{
    if entries.len() == 0 {
        -1
    } else {
        let k = first_key(entries.drop_last(), p);
        if k >= 0 {
            k
        } else if p(entries.last().0) {
            entries.len() - 1
        } else {
            -1
        }
    }
}

/// `v[key]`: the value under string key `key` of a mapping (tags looked
/// through); `None` for anything else or a missing key.
pub open spec fn get_key(v: YamlValue, key: Seq<char>) -> Option<YamlValue> {
    match untag(v) {
        YamlValue::Mapping(m) => {
            let k = first_key(m@, |k: YamlValue| key_is(k, key));
            if k >= 0 {
                Some(m@[k].1)
            } else {
                None
            }
        },
        _ => None,
    }
}

/// `v[idx]`: element `idx` of a sequence, or the value under number key
/// `idx` of a mapping (tags looked through); `None` otherwise.
pub open spec fn get_index(v: YamlValue, idx: nat) -> Option<YamlValue> {
    match untag(v) {
        YamlValue::Sequence(s) => if idx < s@.len() {
            Some(s@[idx as int])
        } else {
            None
        },
        YamlValue::Mapping(m) => {
            let k = first_key(m@, |k: YamlValue| key_is_index(k, idx));
            if k >= 0 {
                Some(m@[k].1)
            } else {
                None
            }
        },
        _ => None,
    }
}

/// The position of the first `c` in `s`, or -1.
pub open spec fn find_char(s: Seq<char>, c: char) -> int
    decreases s.len(),
{
    if s.len() == 0 {
        -1
    } else {
        let k = find_char(s.drop_last(), c);
        if k >= 0 {
            k
        } else if s.last() == c {
            s.len() - 1
        } else {
            -1
        }
    }
}

/// The value of a string of decimal digits.
pub open spec fn digits_value(d: Seq<char>) -> nat
    decreases d.len(),
{
    if d.len() == 0 {
        0
    } else {
        digits_value(d.drop_last()) * 10 + ((d.last() as int) - ('0' as int)) as nat
    }
}

/// Whether every character is a decimal digit.
pub open spec fn all_digits(d: Seq<char>) -> bool {
    forall|i: int| 0 <= i < d.len() ==> '0' <= #[trigger] d[i] <= '9'
}

/// `str::parse::<usize>`: an optional `+`, then at least one digit, and a
/// value that fits.
pub open spec fn parse_usize(s: Seq<char>) -> Option<nat> {
    let d = if s.len() > 0 && s[0] == '+' {
        s.skip(1)
    } else {
        s
    };
    if d.len() == 0 || !all_digits(d) || digits_value(d) > usize::MAX {
        None
    } else {
        Some(digits_value(d))
    }
}

/// Whether a path part is a dotted index: decimal digits only.
pub open spec fn is_dotted_index(part: Seq<char>) -> bool {
    part.len() > 0 && all_digits(part) && parse_usize(part) is Some
}

/// One step of a lookup path: `field`, or `field[index]` with the closing
/// bracket last; on a sequence, a part of digits only (`Drivers.0`) is an
/// index too.
pub open spec fn lookup_part(v: YamlValue, part: Seq<char>) -> Option<YamlValue> {
    let open = find_char(part, '[');
    if open < 0 {
        if untag(v) is Sequence && is_dotted_index(part) {
            get_index(v, parse_usize(part)->0)
        } else {
            get_key(v, part)
        }
    } else {
        let close = find_char(part, ']');
        if close != part.len() - 1 {
            None
        } else {
            match parse_usize(part.subrange(open + 1, close)) {
                None => None,
                Some(idx) => match get_key(v, part.take(open)) {
                    None => None,
                    Some(f) => get_index(f, idx),
                },
            }
        }
    }
}

/// `s` split at every `.`, keeping empty pieces.
pub open spec fn split_dots(s: Seq<char>) -> Seq<Seq<char>>
    decreases s.len(),
{
    if s.len() == 0 {
        seq![seq![]]
    } else {
        let rest = split_dots(s.drop_last());
        if s.last() == '.' {
            rest.push(seq![])
        } else {
            rest.update(rest.len() - 1, rest.last().push(s.last()))
        }
    }
}

/// The value a sequence of path parts leads to from `v`.
pub open spec fn lookup_path(v: YamlValue, parts: Seq<Seq<char>>) -> Option<YamlValue>
    decreases parts.len(),
{
    if parts.len() == 0 {
        Some(v)
    } else {
        match lookup_path(v, parts.drop_last()) {
            None => None,
            Some(c) => lookup_part(c, parts.last()),
        }
    }
}

/// The text of a scalar value: a string as itself, a number as written, a
/// flag as `true` / `false`. Anything else has none.
pub open spec fn scalar_text(v: YamlValue) -> Option<Seq<char>> {
    match v {
        YamlValue::String(s) => Some(s@),
        YamlValue::Number(n) => Some(n.text@),
        YamlValue::Bool(b) => Some(
            if b {
                "true"@
            } else {
                "false"@
            },
        ),
        _ => None,
    }
}

/// The text at a dot-separated path of the document `root`.
pub open spec fn value_at(root: YamlValue, path: Seq<char>) -> Option<Seq<char>> {
    match lookup_path(root, split_dots(path)) {
        Some(v) => scalar_text(v),
        None => None,
    }
}

proof fn lemma_split_nonempty(s: Seq<char>)
    ensures
        split_dots(s).len() >= 1,
    decreases s.len(),
{
    if s.len() > 0 {
        lemma_split_nonempty(s.drop_last());
    }
}

proof fn lemma_lookup_none_stays(v: YamlValue, parts: Seq<Seq<char>>, n: int)
    requires
        0 <= n <= parts.len(),
        lookup_path(v, parts.take(n)) is None,
    ensures
        lookup_path(v, parts) is None,
    decreases parts.len() - n,
{
    if n < parts.len() {
        assert(parts.take(n + 1).drop_last() =~= parts.take(n));
        lemma_lookup_none_stays(v, parts, n + 1);
    } else {
        assert(parts.take(n) =~= parts);
    }
}

fn untag_ref(v: &YamlValue) -> (r: &YamlValue)
    ensures
        *r == untag(*v),
    decreases v,
{
    match v {
        YamlValue::Tagged(_, inner) => untag_ref(inner),
        _ => v,
    }
}

fn find_string_key<'a>(m: &'a Vec<(YamlValue, YamlValue)>, key: &str) -> (r: Option<&'a YamlValue>)
    ensures
        ({
            let k = first_key(m@, |k: YamlValue| key_is(k, key@));
            match r {
                Some(x) => k >= 0 && *x == m@[k].1,
                None => k < 0,
            }
        }),
{
    let ghost p = |k: YamlValue| key_is(k, key@);
    let mut i: usize = 0;
    while i < m.len()
        invariant
            i <= m@.len(),
            p == (|k: YamlValue| key_is(k, key@)),
            first_key(m@.take(i as int), p) < 0,
        decreases m@.len() - i,
    {
        proof {
            assert(m@.take(i + 1).drop_last() =~= m@.take(i as int));
        }
        let hit = match &m[i].0 {
            YamlValue::String(s) => str_equal(s.as_str(), key),
            _ => false,
        };
        if hit {
            proof {
                lemma_first_key_prefix(m@, p, i as int + 1);
            }
            return Some(&m[i].1);
        }
        i = i + 1;
    }
    proof {
        assert(m@.take(m@.len() as int) =~= m@);
    }
    None
}

fn find_index_key<'a>(m: &'a Vec<(YamlValue, YamlValue)>, idx: usize) -> (r: Option<&'a YamlValue>)
    ensures
        ({
            let k = first_key(m@, |k: YamlValue| key_is_index(k, idx as nat));
            match r {
                Some(x) => k >= 0 && *x == m@[k].1,
                None => k < 0,
            }
        }),
{
    let ghost p = |k: YamlValue| key_is_index(k, idx as nat);
    let mut i: usize = 0;
    while i < m.len()
        invariant
            i <= m@.len(),
            p == (|k: YamlValue| key_is_index(k, idx as nat)),
            first_key(m@.take(i as int), p) < 0,
        decreases m@.len() - i,
    {
        proof {
            assert(m@.take(i + 1).drop_last() =~= m@.take(i as int));
        }
        let hit = match &m[i].0 {
            YamlValue::Number(n) => match n.index {
                Some(x) => x == idx as u64,
                None => false,
            },
            _ => false,
        };
        if hit {
            proof {
                lemma_first_key_prefix(m@, p, i as int + 1);
            }
            return Some(&m[i].1);
        }
        i = i + 1;
    }
    proof {
        assert(m@.take(m@.len() as int) =~= m@);
    }
    None
}

proof fn lemma_first_key_prefix(
    entries: Seq<(YamlValue, YamlValue)>,
    p: spec_fn(YamlValue) -> bool,
    n: int,
)
    requires
        0 <= n <= entries.len(),
        first_key(entries.take(n), p) >= 0,
    ensures
        first_key(entries, p) == first_key(entries.take(n), p),
    decreases entries.len() - n,
{
    if n < entries.len() {
        assert(entries.take(n + 1).drop_last() =~= entries.take(n));
        lemma_first_key_prefix(entries, p, n + 1);
    } else {
        assert(entries.take(n) =~= entries);
    }
}

fn get_key_ref<'a>(v: &'a YamlValue, key: &str) -> (r: Option<&'a YamlValue>)
    ensures
        match r {
            Some(x) => get_key(*v, key@) == Some(*x),
            None => get_key(*v, key@) is None,
        },
{
    match untag_ref(v) {
        YamlValue::Mapping(m) => find_string_key(m, key),
        _ => None,
    }
}

fn get_index_ref<'a>(v: &'a YamlValue, idx: usize) -> (r: Option<&'a YamlValue>)
    ensures
        match r {
            Some(x) => get_index(*v, idx as nat) == Some(*x),
            None => get_index(*v, idx as nat) is None,
        },
{
    match untag_ref(v) {
        YamlValue::Sequence(s) => if idx < s.len() {
            Some(&s[idx])
        } else {
            None
        },
        YamlValue::Mapping(m) => find_index_key(m, idx),
        _ => None,
    }
}

fn find_char_exec(s: &Vec<char>, c: char) -> (r: Option<usize>)
    ensures
        match r {
            Some(k) => k as int == find_char(s@, c) && k < s.len() && s@[k as int] == c,
            None => find_char(s@, c) < 0,
        },
{
    let mut i: usize = 0;
    while i < s.len()
        invariant
            i <= s.len(),
            find_char(s@.take(i as int), c) < 0,
        decreases s.len() - i,
    {
        proof {
            assert(s@.take(i + 1).drop_last() =~= s@.take(i as int));
        }
        if s[i] == c {
            proof {
                lemma_find_char_prefix(s@, c, i as int + 1);
            }
            return Some(i);
        }
        i = i + 1;
    }
    proof {
        assert(s@.take(s.len() as int) =~= s@);
    }
    None
}

proof fn lemma_find_char_prefix(s: Seq<char>, c: char, n: int)
    requires
        0 <= n <= s.len(),
        find_char(s.take(n), c) >= 0,
    ensures
        find_char(s, c) == find_char(s.take(n), c),
    decreases s.len() - n,
{
    if n < s.len() {
        assert(s.take(n + 1).drop_last() =~= s.take(n));
        lemma_find_char_prefix(s, c, n + 1);
    } else {
        assert(s.take(n) =~= s);
    }
}

proof fn lemma_digits_grow(d: Seq<char>, n: int)
    requires
        0 <= n <= d.len(),
        all_digits(d),
    ensures
        digits_value(d.take(n)) <= digits_value(d),
    decreases d.len() - n,
{
    if n < d.len() {
        assert(d.take(n + 1).drop_last() =~= d.take(n));
        lemma_digits_grow(d, n + 1);
        assert(digits_value(d.take(n + 1)) == digits_value(d.take(n)) * 10 + ((d[n] as int) - (
        '0' as int)) as nat);
    } else {
        assert(d.take(n) =~= d);
    }
}

/// `str::parse::<usize>` on `s[from..to]`.
fn parse_usize_exec(s: &Vec<char>, from: usize, to: usize) -> (r: Option<usize>)
    requires
        from <= to <= s.len(),
    ensures
        match r {
            Some(v) => parse_usize(s@.subrange(from as int, to as int)) == Some(v as nat),
            None => parse_usize(s@.subrange(from as int, to as int)) is None,
        },
{
    let ghost part = s@.subrange(from as int, to as int);
    let mut start = from;
    if from < to && s[from] == '+' {
        start = from + 1;
    }
    let ghost d = s@.subrange(start as int, to as int);
    proof {
        if part.len() > 0 && part[0] == '+' {
            assert(part.skip(1) =~= d);
        } else {
            assert(part =~= d);
        }
    }
    if start == to {
        return None;
    }
    let mut value: usize = 0;
    let mut i = start;
    while i < to
        invariant
            from <= start <= i <= to <= s.len(),
            d == s@.subrange(start as int, to as int),
            d.len() > 0,
            parse_usize(part) == (if !all_digits(d) || digits_value(d) > usize::MAX {
                None
            } else {
                Some(digits_value(d))
            }),
            part == s@.subrange(from as int, to as int),
            all_digits(d.take(i - start)),
            value == digits_value(d.take(i - start)),
        decreases to - i,
    {
        let c = s[i];
        proof {
            assert(d.take(i - start + 1).drop_last() =~= d.take(i - start));
            assert(d[i - start] == c);
        }
        if c < '0' || c > '9' {
            proof {
                assert(!('0' <= d[i - start] <= '9'));
                assert(!all_digits(d));
            }
            return None;
        }
        let digit: usize = (c as u32 - '0' as u32) as usize;
        if value > (usize::MAX - digit) / 10 {
            proof {
                assert(all_digits(d.take(i - start + 1)));
                assert(digits_value(d.take(i - start + 1)) == value * 10 + digit);
                assert(value * 10 + digit > usize::MAX) by (nonlinear_arith)
                    requires
                        value > (usize::MAX - digit) / 10,
                        digit <= 9,
                ;
                if all_digits(d) {
                    lemma_digits_grow(d, i - start + 1);
                }
            }
            return None;
        }
        proof {
            assert(value * 10 + digit <= usize::MAX) by (nonlinear_arith)
                requires
                    value <= (usize::MAX - digit) / 10,
                    digit <= 9,
            ;
        }
        value = value * 10 + digit;
        proof {
            assert(all_digits(d.take(i - start + 1)));
        }
        i = i + 1;
    }
    proof {
        assert(d.take(to - start) =~= d);
    }
    Some(value)
}

/// One step of a lookup: `field`, or `field[index]`.
fn lookup_part_ref<'a>(v: &'a YamlValue, part: &Vec<char>) -> (r: Option<&'a YamlValue>)
    ensures
        match r {
            Some(x) => lookup_part(*v, part@) == Some(*x),
            None => lookup_part(*v, part@) is None,
        },
{
    match find_char_exec(part, '[') {
        None => {
            proof {
                assert(part@.subrange(0, part@.len() as int) =~= part@);
            }
            let is_seq = match untag_ref(v) {
                YamlValue::Sequence(_) => true,
                _ => false,
            };
            if is_seq && part.len() > 0 && part[0] != '+' {
                match parse_usize_exec(part, 0, part.len()) {
                    Some(idx) => {
                        proof {
                            assert(part@[0] != '+');
                            assert(all_digits(part@));
                        }
                        return get_index_ref(v, idx);
                    },
                    None => {},
                }
            }
            proof {
                if untag(*v) is Sequence && is_dotted_index(part@) {
                    assert('0' <= part@[0] <= '9');
                }
            }
            let key = crate::text::string_from_chars(part, 0, part.len());
            get_key_ref(v, key.as_str())
        },
        Some(open) => {
            let close = match find_char_exec(part, ']') {
                Some(c) => c,
                None => {
                    return None;
                },
            };
            if close != part.len() - 1 {
                return None;
            }
            if close < open + 1 {
                proof {
                    assert(part@[close as int] == ']');
                    assert(part@[open as int] == '[');
                }
                return None;
            }
            let index = match parse_usize_exec(part, open + 1, close) {
                Some(i) => i,
                None => {
                    return None;
                },
            };
            let field = crate::text::string_from_chars(part, 0, open);
            proof {
                assert(part@.subrange(0, open as int) =~= part@.take(open as int));
            }
            match get_key_ref(v, field.as_str()) {
                Some(f) => get_index_ref(f, index),
                None => None,
            }
        },
    }
}

/// `path` split at every `.`.
fn split_path(path: &str) -> (r: Vec<Vec<char>>)
    ensures
        r@.len() == split_dots(path@).len(),
        forall|i: int| 0 <= i < r@.len() ==> #[trigger] r@[i]@ == split_dots(path@)[i],
{
    let chars = chars_of(path);
    let mut parts: Vec<Vec<char>> = Vec::new();
    parts.push(Vec::new());
    let mut i: usize = 0;
    proof {
        assert(chars@.take(0) =~= Seq::<char>::empty());
        assert(parts@[0]@ =~= split_dots(chars@.take(0))[0]);
    }
    while i < chars.len()
        invariant
            i <= chars.len(),
            chars@ == path@,
            parts@.len() == split_dots(chars@.take(i as int)).len(),
            parts@.len() >= 1,
            forall|j: int|
                0 <= j < parts@.len() ==> #[trigger] parts@[j]@ == split_dots(
                    chars@.take(i as int),
                )[j],
        decreases chars.len() - i,
    {
        let c = chars[i];
        let ghost prev = split_dots(chars@.take(i as int));
        proof {
            assert(chars@.take(i + 1).drop_last() =~= chars@.take(i as int));
            assert(chars@.take(i + 1).last() == c);
        }
        if c == '.' {
            parts.push(Vec::new());
            proof {
                assert forall|j: int| 0 <= j < parts@.len() implies #[trigger] parts@[j]@
                    == split_dots(chars@.take(i + 1))[j] by {
                    if j == parts@.len() - 1 {
                        assert(parts@[j]@ =~= Seq::<char>::empty());
                    }
                }
            }
        } else {
            let n = parts.len();
            let mut last = parts.pop().unwrap();
            last.push(c);
            parts.push(last);
            proof {
                assert forall|j: int| 0 <= j < parts@.len() implies #[trigger] parts@[j]@
                    == split_dots(chars@.take(i + 1))[j] by {
                    if j == n - 1 {
                        assert(parts@[j]@ =~= prev.last().push(c));
                    }
                }
            }
        }
        i = i + 1;
    }
    proof {
        assert(chars@.take(chars.len() as int) =~= chars@);
    }
    parts
}

impl IracingSession {
    /// Parse raw session-info YAML emitted by iRacing into an `IracingSession`.
    /// Returns `None` if the YAML is malformed.
    pub fn from_yaml(yaml_str: &str) -> (r: Option<IracingSession>)
        ensures
            match yaml_document(yaml_str@) {
                Some(d) => r == Some((IracingSession { raw_yaml: d })),
                None => r is None,
            },
    {
        match parse_yaml_document(yaml_str) {
            Some(d) => Some(IracingSession { raw_yaml: d }),
            None => None,
        }
    }

    /// Look up an arbitrary value in the session YAML using a dot-separated path.
    /// Array elements are addressed with bracket notation, e.g.
    /// `"DriverInfo.Drivers[0].UserName"`, or as a part of digits only, e.g.
    /// `"DriverInfo.Drivers.0.UserName"`. Strings, numbers and flags give
    /// their text; a missing key, a malformed step or any other kind of value
    /// gives `None`.
    pub fn get_value(&self, path: &str) -> (r: Option<String>)
        ensures
            match r {
                Some(s) => value_at(self.raw_yaml, path@) == Some(s@),
                None => value_at(self.raw_yaml, path@) is None,
            },
    {
        let parts = split_path(path);
        let ghost ps = split_dots(path@);
        proof {
            assert(ps.take(0) =~= Seq::<Seq<char>>::empty());
        }
        let mut current: &YamlValue = &self.raw_yaml;
        let mut j: usize = 0;
        while j < parts.len()
            invariant
                j <= parts@.len(),
                parts@.len() == ps.len(),
                ps == split_dots(path@),
                forall|i: int| 0 <= i < parts@.len() ==> #[trigger] parts@[i]@ == ps[i],
                lookup_path(self.raw_yaml, ps.take(j as int)) == Some(*current),
            decreases parts@.len() - j,
        {
            proof {
                assert(ps.take(j + 1).drop_last() =~= ps.take(j as int));
                assert(ps.take(j + 1).last() == ps[j as int]);
            }
            match lookup_part_ref(current, &parts[j]) {
                Some(next) => {
                    current = next;
                },
                None => {
                    proof {
                        lemma_lookup_none_stays(self.raw_yaml, ps, j + 1);
                    }
                    return None;
                },
            }
            j = j + 1;
        }
        proof {
            assert(ps.take(parts@.len() as int) =~= ps);
        }
        match current {
            YamlValue::String(s) => Some(s.clone()),
            YamlValue::Number(n) => Some(n.text.clone()),
            YamlValue::Bool(b) => if *b {
                Some(String::from_str("true"))
            } else {
                Some(String::from_str("false"))
            },
            _ => None,
        }
    }
}

/// Whether a session parsed at version `cached` can be handed out again at
/// the sim's current session-info version: only when one was parsed, at that
/// same version. Otherwise the YAML is read and parsed anew.
pub fn session_cache_fresh(cached: Option<i32>, current: i32) -> (r: bool)
    ensures
        r == (cached == Some(current)),
{
    match cached {
        Some(v) => v == current,
        None => false,
    }
}

} // verus!
