//! The settings document grammar and its parser.
//!
//! A settings document is a line-oriented key/value text. Each line,
//! after trimming, is either blank, a comment starting with `#`, a
//! section header `[name]`, or a pair `key = "value"` whose key is a bare
//! key (ASCII letters, digits, `_`, `-`) and whose value is a quoted
//! string without inner quotes or backslashes. Pairs before any header
//! belong to the root section, whose name is empty. Anything else makes
//! the document malformed; a malformed document is a hard error carrying
//! the first offending line, never silently skipped.

use vstd::prelude::*;
use crate::errors::ConfigError;
use crate::text::{
    find_char,
    is_space,
    lemma_find_char,
    lemma_trim_end_prefix,
    str_eq,
    trim_start,
    trim_str,
    trimmed,
};

verus! {

/// A parsed pair as the specification sees it: section, key, value.
pub type PairV = (Seq<char>, Seq<char>, Seq<char>);

/// One `key = "value"` line of a parsed document, with the section it
/// stands under (the root section's name is empty).
pub struct DocPair {
    /// Name of the section the pair stands under.
    pub section: String,
    /// The bare key.
    pub key: String,
    /// The unquoted value.
    pub value: String,
}

impl View for DocPair {
    type V = PairV;

    open spec fn view(&self) -> PairV {
        (self.section@, self.key@, self.value@)
    }
}

/// The pairs a vector of parsed lines stands for.
pub open spec fn pairs_view(s: Seq<DocPair>) -> Seq<PairV> {
    s.map_values(|p: DocPair| p@)
}

/// A character a bare key may hold.
pub open spec fn is_key_char(c: char) -> bool {
    (97 <= c as u32 <= 122)  // a-z
    || (65 <= c as u32 <= 90)  // A-Z
    || (48 <= c as u32 <= 57)  // 0-9
    || c == '_'
    || c == '-'
}

/// Every character of `s` is a bare-key character.
pub open spec fn all_key_chars(s: Seq<char>) -> bool {
    forall|i: int| 0 <= i < s.len() ==> is_key_char(s[i])
}

/// A quoted string: at least the two quotes, with no quote or backslash
/// between them.
pub open spec fn is_quoted(s: Seq<char>) -> bool {
    s.len() >= 2 && s[0] == '"' && s.last() == '"' && forall|i: int|
        1 <= i < s.len() - 1 ==> s[i] != '"' && s[i] != '\\'
}

/// The text between the quotes.
pub open spec fn quoted_body(s: Seq<char>) -> Seq<char> {
    s.subrange(1, s.len() - 1)
}

/// A blank or comment line: nothing once trimmed, or a first character
/// `#`.
pub open spec fn line_is_blank(raw: Seq<char>) -> bool {
    let t = trimmed(raw);
    t.len() == 0 || t[0] == '#'
}

/// A section header: `[name]` once trimmed, with a non-empty bare-key
/// name.
pub open spec fn line_is_header(raw: Seq<char>) -> bool {
    let t = trimmed(raw);
    t.len() >= 2 && t[0] == '[' && t.last() == ']' && {
        let name = trimmed(t.subrange(1, t.len() - 1));
        name.len() > 0 && all_key_chars(name)
    }
}

/// The name of a header line.
pub open spec fn header_name(raw: Seq<char>) -> Seq<char> {
    let t = trimmed(raw);
    trimmed(t.subrange(1, t.len() - 1))
}

/// A pair line: a non-empty bare key, `=`, and a quoted value.
pub open spec fn line_is_pair(raw: Seq<char>) -> bool {
    let t = trimmed(raw);
    let p = find_char(t, '=');
    p < t.len() && {
        let key = trimmed(t.take(p));
        let val = trimmed(t.skip(p + 1));
        key.len() > 0 && all_key_chars(key) && is_quoted(val)
    }
}

/// The key of a pair line.
pub open spec fn pair_key(raw: Seq<char>) -> Seq<char> {
    let t = trimmed(raw);
    trimmed(t.take(find_char(t, '=')))
}

/// The value of a pair line, unquoted.
pub open spec fn pair_value(raw: Seq<char>) -> Seq<char> {
    let t = trimmed(raw);
    quoted_body(trimmed(t.skip(find_char(t, '=') + 1)))
}

/// `find_char` stays within the text's bounds and, when it finds
/// something, points at the character it looked for.
pub proof fn lemma_find_char_bounds(s: Seq<char>, c: char)
    ensures
        0 <= find_char(s, c) <= s.len(),
        find_char(s, c) < s.len() ==> s[find_char(s, c)] == c,
    decreases s.len(),
{
    if s.len() == 0 {
    } else if s[0] == c {
    } else {
        lemma_find_char_bounds(s.drop_first(), c);
    }
}

/// What parsing the rest of a document yields, one line at a time:
/// the pairs collected so far plus those still to come, or the one-based
/// number of the first offending line.
pub open spec fn parse_from(t: Seq<char>, section: Seq<char>, line: nat, acc: Seq<PairV>) -> Result<
    Seq<PairV>,
    nat,
>
    decreases t.len(),
    via parse_from_decreases
{
    if t.len() == 0 {
        Ok(acc)
    } else {
        let e = find_char(t, '\n');
        let raw = t.take(e);
        let rest = if e == t.len() {
            Seq::<char>::empty()
        } else {
            t.skip(e + 1)
        };
        if line_is_blank(raw) {
            parse_from(rest, section, line + 1, acc)
        } else if line_is_header(raw) {
            parse_from(rest, header_name(raw), line + 1, acc)
        } else if line_is_pair(raw) {
            parse_from(rest, section, line + 1, acc.push((section, pair_key(raw), pair_value(raw))))
        } else {
            Err(line)
        }
    }
}

#[via_fn]
proof fn parse_from_decreases(t: Seq<char>, section: Seq<char>, line: nat, acc: Seq<PairV>) {
    if t.len() > 0 {
        lemma_find_char_bounds(t, '\n');
    }
}

/// What parsing a whole document yields: its pairs in order, or the
/// one-based number of the first offending line.
pub open spec fn parse_document(t: Seq<char>) -> Result<Seq<PairV>, nat> {
    parse_from(t, Seq::<char>::empty(), 1, Seq::<PairV>::empty())
}

/// What one line of the document is.
pub enum LineKind {
    /// Blank or a comment.
    Blank,
    /// A section header and its name.
    Header { name: String },
    /// A pair: key and unquoted value.
    Pair { key: String, value: String },
    /// None of the grammar's forms.
    Bad,
}

/// Whether every character of `s` is a bare-key character.
#[verifier::loop_isolation(false)]
fn all_key_chars_exec(s: &str) -> (r: bool)
    ensures
        r == all_key_chars(s@),
{
    let n: usize = s.unicode_len();
    let mut i: usize = 0;
    while i < n
        invariant
            i <= n,
            forall|k: int| 0 <= k < i ==> is_key_char(s@[k]),
        decreases n - i,
    {
        let c = s.get_char(i);
        let ok = (97 <= c as u32 && c as u32 <= 122) || (65 <= c as u32 && c as u32 <= 90) || (48
            <= c as u32 && c as u32 <= 57) || c == '_' || c == '-';
        if !ok {
            return false;
        }
        i = i + 1;
    }
    true
}

/// Whether `s` is a quoted string of the grammar.
#[verifier::loop_isolation(false)]
fn is_quoted_exec(s: &str) -> (r: bool)
    ensures
        r == is_quoted(s@),
{
    let n: usize = s.unicode_len();
    if n < 2 {
        return false;
    }
    if s.get_char(0) != '"' || s.get_char(n - 1) != '"' {
        return false;
    }
    let mut i: usize = 1;
    while i < n - 1
        invariant
            1 <= i <= n - 1,
            forall|k: int| 1 <= k < i ==> s@[k] != '"' && s@[k] != '\\',
        decreases n - i,
    {
        let c = s.get_char(i);
        if c == '"' || c == '\\' {
            return false;
        }
        i = i + 1;
    }
    true
}

/// The first character after a leading trim is not a space.
proof fn lemma_trim_start_not_space(s: Seq<char>)
    ensures
        trim_start(s).len() > 0 ==> !is_space(trim_start(s)[0]),
        trimmed(s).len() > 0 ==> !is_space(trimmed(s)[0]),
    decreases s.len(),
{
    if s.len() > 0 && is_space(s[0]) {
        lemma_trim_start_not_space(s.drop_first());
    } else {
        lemma_trim_end_prefix(trim_start(s));
    }
}

/// A line whose trimmed text starts with a character that is neither a
/// bare-key character nor `=` is not a pair line: the key would have to
/// start with that character.
proof fn lemma_no_pair(raw: Seq<char>)
    requires
        trimmed(raw).len() > 0,
        !is_key_char(trimmed(raw)[0]),
        trimmed(raw)[0] != '=',
    ensures
        !line_is_pair(raw),
{
    let t = trimmed(raw);
    let p = find_char(t, '=');
    lemma_find_char_bounds(t, '=');
    if p < t.len() {
        assert(t[p] == '=');
        assert(p > 0);
        lemma_trim_start_not_space(raw);
        let pre = t.take(p);
        assert(pre[0] == t[0]);
        assert(trim_start(pre) == pre);
        let key = trimmed(pre);
        lemma_trim_end_prefix(pre);
        if key.len() > 0 {
            assert(key[0] == pre[0]);
            assert(!is_key_char(key[0]));
        }
    }
}

/// Reads one raw line of a document and says which of the grammar's forms
/// it is, with the header name or the key and unquoted value. The forms
/// are mutually exclusive; `Bad` means the line fits none of them.
#[verifier::loop_isolation(false)]
pub fn classify_line(raw: &str) -> (r: LineKind)
    ensures
        r is Blank <==> line_is_blank(raw@),
        r is Header <==> line_is_header(raw@),
        r is Pair <==> line_is_pair(raw@),
        r matches LineKind::Header { name } ==> name@ == header_name(raw@),
        r matches LineKind::Pair { key, value } ==> key@ == pair_key(raw@) && value@ == pair_value(
            raw@,
        ),
{
    let t: &str = trim_str(raw);
    let m: usize = t.unicode_len();
    if m == 0 {
        proof {
            lemma_find_char_bounds(t@, '=');
        }
        return LineKind::Blank;
    }
    let c0 = t.get_char(0);
    if c0 == '#' {
        proof {
            lemma_no_pair(raw@);
        }
        return LineKind::Blank;
    }
    if c0 == '[' {
        proof {
            lemma_no_pair(raw@);
        }
        if m >= 2 && t.get_char(m - 1) == ']' {
            let inner: &str = t.substring_char(1, m - 1);
            proof {
                assert(inner@ =~= t@.subrange(1, t@.len() - 1));
            }
            let name: &str = trim_str(inner);
            if name.unicode_len() > 0 && all_key_chars_exec(name) {
                return LineKind::Header { name: String::from_str(name) };
            }
        }
        return LineKind::Bad;
    }
    // Neither a comment nor a header from here on; try a pair.
    let mut p: usize = 0;
    while p < m && t.get_char(p) != '='
        invariant
            p <= m,
            forall|k: int| 0 <= k < p ==> t@[k] != '=',
        decreases m - p,
    {
        p = p + 1;
    }
    proof {
        lemma_find_char(t@, '=', p as int);
    }
    if p == m {
        return LineKind::Bad;
    }
    let key_part: &str = t.substring_char(0, p);
    proof {
        assert(key_part@ =~= t@.take(p as int));
    }
    let key: &str = trim_str(key_part);
    let val_part: &str = t.substring_char(p + 1, m);
    proof {
        assert(val_part@ =~= t@.skip(p + 1));
    }
    let val: &str = trim_str(val_part);
    if key.unicode_len() > 0 && all_key_chars_exec(key) && is_quoted_exec(val) {
        let vn: usize = val.unicode_len();
        let body: &str = val.substring_char(1, vn - 1);
        LineKind::Pair { key: String::from_str(key), value: String::from_str(body) }
    } else {
        LineKind::Bad
    }
}

/// Parses a whole settings document into its pairs in order, or reports
/// the first offending line as a `ConfigError::Malformed`, if and only if
/// the document does not fit the grammar.
#[verifier::loop_isolation(false)]
pub fn parse(text: &str) -> (r: Result<Vec<DocPair>, ConfigError>)
    requires
        text@.len() < usize::MAX,
    ensures
        match parse_document(text@) {
            Ok(ps) => r matches Ok(v) && pairs_view(v@) == ps,
            Err(line) => r matches Err(e) && e matches ConfigError::Malformed { line: l } && l
                as nat == line,
        },
{
    let n: usize = text.unicode_len();
    let mut pos: usize = 0;
    let mut line_no: usize = 1;
    let mut section: String = String::new();
    let mut acc: Vec<DocPair> = Vec::new();
    proof {
        assert(text@.skip(0) =~= text@);
        assert(pairs_view(acc@) =~= Seq::<PairV>::empty());
    }
    while pos < n
        invariant
            pos <= n,
            1 <= line_no <= pos + 1,
            parse_document(text@) == parse_from(
                text@.skip(pos as int),
                section@,
                line_no as nat,
                pairs_view(acc@),
            ),
        decreases n - pos,
    {
        let ghost t_rest = text@.skip(pos as int);
        let mut j: usize = pos;
        while j < n && text.get_char(j) != '\n'
            invariant
                pos <= j <= n,
                forall|k: int| pos <= k < j ==> text@[k] != '\n',
            decreases n - j,
        {
            j = j + 1;
        }
        proof {
            assert(forall|k: int| 0 <= k < j - pos ==> t_rest[k] != '\n');
            lemma_find_char(t_rest, '\n', j - pos);
            if j < n {
                assert(t_rest.skip(j - pos + 1) =~= text@.skip(j + 1));
            } else {
                assert(text@.skip(n as int) =~= Seq::<char>::empty());
            }
        }
        let raw: &str = text.substring_char(pos, j);
        proof {
            assert(raw@ =~= t_rest.take(j - pos));
        }
        let ghost sec0 = section@;
        let ghost acc0 = pairs_view(acc@);
        let ghost l0 = line_no as nat;
        let ghost rest = if j == n {
            Seq::<char>::empty()
        } else {
            text@.skip(j + 1)
        };
        match classify_line(raw) {
            LineKind::Bad => {
                return Err(ConfigError::Malformed { line: line_no });
            },
            LineKind::Blank => {
            },
            LineKind::Header { name } => {
                section = name;
            },
            LineKind::Pair { key, value } => {
                let pair = DocPair { section: section.clone(), key, value };
                proof {
                    assert(pairs_view(acc@.push(pair)) =~= pairs_view(acc@).push(pair@));
                }
                acc.push(pair);
            },
        }
        if j < n {
            pos = j + 1;
            line_no = line_no + 1;
        } else {
            pos = n;
        }
        proof {
            assert(parse_from(t_rest, sec0, l0, acc0) == parse_from(
                rest,
                section@,
                l0 + 1,
                pairs_view(acc@),
            ));
            if j == n {
                assert(parse_from(rest, section@, l0 + 1, pairs_view(acc@)) == Ok::<
                    Seq<PairV>,
                    nat,
                >(pairs_view(acc@)));
                assert(parse_from(rest, section@, line_no as nat, pairs_view(acc@)) == Ok::<
                    Seq<PairV>,
                    nat,
                >(pairs_view(acc@)));
            }
        }
    }
    proof {
        assert(text@.skip(n as int) =~= Seq::<char>::empty());
    }
    Ok(acc)
}

/// The value of the last pair under `section` with `key`, if any: a later
/// occurrence overrides an earlier one.
pub open spec fn doc_lookup(pairs: Seq<PairV>, section: Seq<char>, key: Seq<char>) -> Option<
    Seq<char>,
>
    decreases pairs.len(),
{
    if pairs.len() == 0 {
        None
    } else if pairs.last().0 == section && pairs.last().1 == key {
        Some(pairs.last().2)
    } else {
        doc_lookup(pairs.drop_last(), section, key)
    }
}

/// Looks a key up among parsed pairs: the last pair under `section` with
/// `key` wins; `None` exactly when no pair matches.
#[verifier::loop_isolation(false)]
pub fn lookup(pairs: &Vec<DocPair>, section: &str, key: &str) -> (r: Option<String>)
    ensures
        match doc_lookup(pairs_view(pairs@), section@, key@) {
            None => r is None,
            Some(v) => r matches Some(s) && s@ == v,
        },
{
    let mut i: usize = pairs.len();
    proof {
        assert(pairs_view(pairs@).take(i as int) =~= pairs_view(pairs@));
    }
    while i > 0
        invariant
            i <= pairs.len(),
            doc_lookup(pairs_view(pairs@), section@, key@) == doc_lookup(
                pairs_view(pairs@).take(i as int),
                section@,
                key@,
            ),
        decreases i,
    {
        let p = &pairs[i - 1];
        proof {
            assert(pairs_view(pairs@).take(i as int).last() == pairs@[i - 1]@);
            assert(pairs_view(pairs@).take(i as int).drop_last() =~= pairs_view(pairs@).take(
                i - 1,
            ));
        }
        if str_eq(p.section.as_str(), section) && str_eq(p.key.as_str(), key) {
            return Some(p.value.clone());
        }
        i = i - 1;
    }
    proof {
        assert(pairs_view(pairs@).take(0) =~= Seq::<PairV>::empty());
    }
    None
}

} // verus!
