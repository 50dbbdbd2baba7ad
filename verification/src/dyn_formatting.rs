//! Dynamic, Python-styled string formatting: `{key}` placeholders are
//! replaced from a dictionary, `{{` and `}}` stand for literal braces.

use crate::checker_error::{CheckerError, CheckerResult, Stage};
use crate::text::{byte_len, byte_offset, from_chars, lemma_byte_offset_bound,
    lemma_byte_offset_step, push_char, to_chars, views, width_of};
use vstd::hash_map::StringHashMap;
use vstd::prelude::*;
use vstd::string::*;

verus! {

/// The substitutions of one formatting call: a finite map from keys to texts.
pub struct Dictionary {
    map: StringHashMap<String>,
    keys: Vec<String>,
}

impl View for Dictionary {
    type V = Map<Seq<char>, Seq<char>>;

    closed spec fn view(&self) -> Map<Seq<char>, Seq<char>> {
        Map::new(|k: Seq<char>| self.map@.contains_key(k), |k: Seq<char>| self.map@[k]@)
    }
}

impl Dictionary {
    #[verifier::type_invariant]
    spec fn inv(self) -> bool {
        lists_keys(self.map@, self.keys@)
    }

    /// The keys, in the order in which they were first inserted.
    pub closed spec fn spec_keys(&self) -> Seq<Seq<char>> {
        views(self.keys@)
    }

    /// The keys with what they stand for, in the order of the keys.
    pub open spec fn spec_entries(&self) -> Seq<(Seq<char>, Seq<char>)> {
        Seq::new(self.spec_keys().len(), |i: int| (self.spec_keys()[i], self@[self.spec_keys()[i]]))
    }

    /// An empty dictionary.
    pub fn new() -> (d: Dictionary)
        ensures
            d@ == Map::<Seq<char>, Seq<char>>::empty(),
            d.spec_keys() == Seq::<Seq<char>>::empty(),
    {
        let d = Dictionary { map: StringHashMap::new(), keys: Vec::new() };
        assert(d@ =~= Map::<Seq<char>, Seq<char>>::empty());
        assert(d.spec_keys() =~= Seq::<Seq<char>>::empty());
        d
    }

    /// Maps `key` to `value`; an earlier value of `key` is replaced.
    pub fn insert(&mut self, key: &str, value: &str)
        ensures
            final(self)@ == old(self)@.insert(key@, value@),
            final(self).spec_keys() == (if old(self)@.contains_key(key@) {
                old(self).spec_keys()
            } else {
                old(self).spec_keys().push(key@)
            }),
    {
        let mut taken = Dictionary::new();
        std::mem::swap(self, &mut taken);
        proof {
            use_type_invariant(&taken);
        }
        let Dictionary { mut map, mut keys } = taken;
        insert_entry(&mut map, &mut keys, key, value);
        *self = Dictionary { map, keys };
        assert(self@ =~= old(self)@.insert(key@, value@));
    }

    /// The text that `key` stands for, if the dictionary has it.
    pub fn get(&self, key: &str) -> (r: Option<&String>)
        ensures
            match r {
                Some(v) => self@.contains_key(key@) && v@ == self@[key@],
                None => !self@.contains_key(key@),
            },
    {
        self.map.get(key)
    }

    /// The keys with what they stand for, in the order in which the keys
    /// were first inserted.
    pub fn entries(&self) -> (r: Vec<(String, String)>)
        ensures
            pair_views(r@) == self.spec_entries(),
    {
        proof {
            use_type_invariant(self);
        }
        let mut r: Vec<(String, String)> = Vec::new();
        let mut i: usize = 0;
        while i < self.keys.len()
            invariant
                i <= self.keys.len(),
                r.len() == i,
                lists_keys(self.map@, self.keys@),
                forall|k: int|
                    0 <= k < i ==> r[k].0@ == self.keys[k]@ && r[k].1@ == self.map@[self.keys[k]@]@,
            decreases self.keys.len() - i,
        {
            assert(views(self.keys@)[i as int] == self.keys[i as int]@);
            let value = match self.map.get(self.keys[i].as_str()) {
                Some(v) => v.clone(),
                None => String::new(),
            };
            r.push((self.keys[i].clone(), value));
            i += 1;
        }
        assert(pair_views(r@) =~= self.spec_entries()) by {
            assert forall|k: int| 0 <= k < r.len() implies pair_views(r@)[k] == self.spec_entries()[k] by {
                assert(views(self.keys@)[k] == self.keys[k]@);
                assert(views(self.keys@).contains(self.keys[k]@));
            }
        }
        r
    }

    /// The keys, in the order in which they were first inserted.
    pub fn keys(&self) -> (r: Vec<String>)
        ensures
            views(r@) == self.spec_keys(),
            forall|k: Seq<char>| self@.contains_key(k) <==> views(r@).contains(k),
    {
        proof {
            use_type_invariant(self);
        }
        crate::text::clone_strings(&self.keys)
    }
}

/// The views of a sequence of pairs of strings, element by element.
pub open spec fn pair_views(v: Seq<(String, String)>) -> Seq<(Seq<char>, Seq<char>)> {
    Seq::new(v.len(), |i: int| (v[i].0@, v[i].1@))
}

/// Whether `keys` lists exactly the keys of `map`.
spec fn lists_keys(map: Map<Seq<char>, String>, keys: Seq<String>) -> bool {
    forall|k: Seq<char>| map.contains_key(k) <==> views(keys).contains(k)
}

/// Puts `key` with `value` into `map`, and `key` at the end of `keys` if it is new.
fn insert_entry(map: &mut StringHashMap<String>, keys: &mut Vec<String>, key: &str, value: &str)
    requires
        lists_keys(old(map)@, old(keys)@),
    ensures
        lists_keys(final(map)@, final(keys)@),
        final(map)@.dom() == old(map)@.dom().insert(key@),
        final(map)@[key@]@ == value@,
        forall|k: Seq<char>| k != key@ && old(map)@.contains_key(k) ==> final(map)@[k] == old(map)@[k],
        views(final(keys)@) == (if old(map)@.contains_key(key@) {
            views(old(keys)@)
        } else {
            views(old(keys)@).push(key@)
        }),
{
    let ghost before = keys@;
    if !map.contains_key(key) {
        keys.push(key.to_owned());
        assert(views(keys@) =~= views(before).push(key@));
    }
    map.insert(key.to_owned(), value.to_owned());
    assert forall|k: Seq<char>| map@.contains_key(k) <==> views(keys@).contains(k) by {
        if k == key@ {
            if !old(map)@.contains_key(key@) {
                assert(views(keys@)[before.len() as int] == key@);
            }
        } else {
            if views(keys@).contains(k) {
                let i = choose|i: int| 0 <= i < views(keys@).len() && views(keys@)[i] == k;
                assert(views(before)[i] == k);
            }
            if views(before).contains(k) {
                let i = choose|i: int| 0 <= i < views(before).len() && views(before)[i] == k;
                assert(views(keys@)[i] == k);
            }
        }
    }
    assert(map@.dom() =~= old(map)@.dom().insert(key@));
}

/// Why a pattern could not be formatted.
#[derive(Debug)]
pub enum DynamicFormatError {
    /// A brace that opens or closes nothing.
    TokenError { pattern: String, desc: String, pos: usize },
    /// A placeholder whose key the dictionary lacks.
    KeyError { pattern: String, key: String, dict_keys: Vec<String>, pos: usize },
}

/// What formatting a pattern comes to. Positions are character indices.
pub enum Formatted {
    /// The formatted text.
    Text(Seq<char>),
    /// The `{` at this index is never closed.
    UnmatchedOpen(int),
    /// The `}` at this index closes nothing and is no escape.
    UnmatchedClose(int),
    /// The placeholder that opens at this index names a key that is absent.
    UnknownKey(Seq<char>, int),
}

/// Index of the first `}` of `p` at or after `from`; `p.len()` if there is none.
pub open spec fn first_close(p: Seq<char>, from: int) -> int
    decreases p.len() - from,
{
    if from < 0 || from >= p.len() {
        p.len() as int
    } else if p[from] == '}' {
        from
    } else {
        first_close(p, from + 1)
    }
}

/// `rest` with `head` put in front of its text; an error is left as it is.
pub open spec fn prepend(head: Seq<char>, rest: Formatted) -> Formatted {
    match rest {
        Formatted::Text(t) => Formatted::Text(head + t),
        _ => rest,
    }
}

/// What formatting `p[i..]` comes to, scanning from left to right.
///
/// Outside a placeholder `{{` and `}}` give one brace each, a single `{`
/// opens a placeholder, and a single `}` is an error. The key of a
/// placeholder is the text up to the next `}`, taken as it stands.
pub open spec fn format_from(p: Seq<char>, dict: Map<Seq<char>, Seq<char>>, i: int) -> Formatted
    decreases p.len() - i,
{
    if i < 0 || i >= p.len() {
        Formatted::Text(Seq::empty())
    } else if p[i] == '{' {
        if i + 1 < p.len() && p[i + 1] == '{' {
            prepend(seq!['{'], format_from(p, dict, i + 2))
        } else {
            let j = first_close(p, i + 1);
            if j >= p.len() {
                Formatted::UnmatchedOpen(i)
            } else {
                let key = p.subrange(i + 1, j);
                if dict.contains_key(key) {
                    proof {
                        lemma_first_close(p, i + 1);
                    }
                    prepend(dict[key], format_from(p, dict, j + 1))
                } else {
                    Formatted::UnknownKey(key, i)
                }
            }
        }
    } else if p[i] == '}' {
        if i + 1 < p.len() && p[i + 1] == '}' {
            prepend(seq!['}'], format_from(p, dict, i + 2))
        } else {
            Formatted::UnmatchedClose(i)
        }
    } else {
        prepend(seq![p[i]], format_from(p, dict, i + 1))
    }
}

/// What formatting the pattern `p` with `dict` comes to.
pub open spec fn formatted(p: Seq<char>, dict: Map<Seq<char>, Seq<char>>) -> Formatted {
    format_from(p, dict, 0)
}

/// Whether `r` is the executable form of `outcome` for `pattern`: the text,
/// or the error with the pattern, its kind and the byte offset of the brace.
pub open spec fn reports(
    r: Result<String, DynamicFormatError>,
    pattern: Seq<char>,
    keys: Seq<Seq<char>>,
    outcome: Formatted,
) -> bool {
    match outcome {
        Formatted::Text(t) => r matches Ok(s) && s@ == t,
        Formatted::UnmatchedOpen(i) => r matches Err(
            DynamicFormatError::TokenError { pattern: p, desc, pos },
        ) && p@ == pattern && desc@ == "Unmatched token '{'"@ && pos == byte_offset(pattern, i),
        Formatted::UnmatchedClose(i) => r matches Err(
            DynamicFormatError::TokenError { pattern: p, desc, pos },
        ) && p@ == pattern && desc@ == "Unmatched token '}'"@ && pos == byte_offset(pattern, i),
        Formatted::UnknownKey(k, i) => r matches Err(
            DynamicFormatError::KeyError { pattern: p, key, dict_keys, pos },
        ) && p@ == pattern && key@ == k && views(dict_keys@) == keys && pos == byte_offset(
            pattern,
            i,
        ),
    }
}

/// Whether `r` is the executable form of `outcome` for `pattern` in `stage`:
/// the text, or the error with the stage, the pattern, its kind, the byte
/// offset of the brace and, for a key, what the dictionary holds.
pub open spec fn reports_in_stage(
    r: CheckerResult<String>,
    pattern: Seq<char>,
    entries: Seq<(Seq<char>, Seq<char>)>,
    stage: Stage,
    outcome: Formatted,
) -> bool {
    match outcome {
        Formatted::Text(t) => r matches Ok(s) && s@ == t,
        Formatted::UnmatchedOpen(i) => r matches Err(e) && (*e matches CheckerError::ArgFormattingTokenError {
            stage: st,
            pattern: p,
            desc,
            pos,
        } && st == stage && p@ == pattern && desc@ == "Unmatched token '{'"@ && pos == byte_offset(
            pattern,
            i,
        )),
        Formatted::UnmatchedClose(i) => r matches Err(e) && (*e matches CheckerError::ArgFormattingTokenError {
            stage: st,
            pattern: p,
            desc,
            pos,
        } && st == stage && p@ == pattern && desc@ == "Unmatched token '}'"@ && pos == byte_offset(
            pattern,
            i,
        )),
        Formatted::UnknownKey(k, i) => r matches Err(e) && (*e matches CheckerError::ArgFormattingKeyError {
            stage: st,
            pattern: p,
            key,
            entries: es,
            pos,
        } && st == stage && p@ == pattern && key@ == k && pair_views(es@) == entries && pos
            == byte_offset(pattern, i)),
    }
}

/// Whether `p` holds no brace at all.
pub open spec fn brace_free(p: Seq<char>) -> bool {
    forall|i: int| 0 <= i < p.len() ==> p[i] != '{' && p[i] != '}'
}

/// The first `}` at or after `from` lies between `from` and the end, and
/// nothing before it is a `}`.
pub proof fn lemma_first_close(p: Seq<char>, from: int)
    requires
        0 <= from <= p.len(),
    ensures
        from <= first_close(p, from) <= p.len(),
        first_close(p, from) < p.len() ==> p[first_close(p, from)] == '}',
        forall|k: int| from <= k < first_close(p, from) ==> p[k] != '}',
    decreases p.len() - from,
{
    if from < p.len() && p[from] != '}' {
        lemma_first_close(p, from + 1);
    }
}

/// Putting two heads in front one after the other is putting their
/// concatenation in front.
pub proof fn lemma_prepend_twice(a: Seq<char>, b: Seq<char>, rest: Formatted)
    ensures
        prepend(a, prepend(b, rest)) == prepend(a + b, rest),
        prepend(Seq::empty(), rest) == rest,
{
    match rest {
        Formatted::Text(t) => {
            assert(a + (b + t) == (a + b) + t);
            assert(Seq::<char>::empty() + t == t);
        },
        _ => {},
    }
}

/// A pattern without braces formats to itself.
pub proof fn lemma_brace_free_unchanged(p: Seq<char>, dict: Map<Seq<char>, Seq<char>>, i: int)
    requires
        brace_free(p),
        0 <= i <= p.len(),
    ensures
        format_from(p, dict, i) == Formatted::Text(p.skip(i)),
    decreases p.len() - i,
{
    if i < p.len() {
        lemma_brace_free_unchanged(p, dict, i + 1);
        assert(seq![p[i]] + p.skip(i + 1) == p.skip(i));
    } else {
        assert(p.skip(i) == Seq::<char>::empty());
    }
}

/// Whether `chars` holds no brace at all.
fn is_brace_free(chars: &Vec<char>) -> (r: bool)
    ensures
        r == brace_free(chars@),
{
    let mut i: usize = 0;
    while i < chars.len()
        invariant
            i <= chars.len(),
            forall|k: int| 0 <= k < i ==> chars[k] != '{' && chars[k] != '}',
        decreases chars.len() - i,
    {
        if chars[i] == '{' || chars[i] == '}' {
            return false;
        }
        i += 1;
    }
    true
}

/// Formats `pattern` with `dictionary`.
///
/// Returns the pattern with every `{key}` replaced by the text that the
/// dictionary gives for `key`, `{{` by `{` and `}}` by `}`. The first
/// offending brace, from the left, ends the call with an error that carries
/// its byte offset in the pattern: a `{` that is never closed, a `}` that
/// closes nothing, or a placeholder whose key the dictionary lacks.
pub fn _dynamic_format(pattern: &str, dictionary: &Dictionary) -> (r: Result<
    String,
    DynamicFormatError,
>)
    ensures
        reports(r, pattern@, dictionary.spec_keys(), formatted(pattern@, dictionary@)),
        brace_free(pattern@) ==> (r matches Ok(s) && s@ == pattern@),
{
    let chars = to_chars(pattern);
    let ghost p = pattern@;
    let ghost d = dictionary@;
    if is_brace_free(&chars) {
        proof {
            lemma_brace_free_unchanged(p, d, 0);
            assert(p.skip(0) == p);
        }
        return Ok(pattern.to_owned());
    }
    let total: usize = pattern.as_bytes().len();
    assert(byte_len(p) == total);
    let n: usize = chars.len();
    let mut ans = String::new();
    let mut i: usize = 0;
    let mut offset: usize = 0;
    proof {
        lemma_prepend_twice(Seq::empty(), Seq::empty(), format_from(p, d, 0));
        assert(p.take(0) == Seq::<char>::empty());
    }
    while i < n
        invariant
            chars@ == p,
            p == pattern@,
            d == dictionary@,
            n == p.len(),
            i <= n,
            byte_len(p) == total,
            offset == byte_offset(p, i as int),
            formatted(p, d) == prepend(ans@, format_from(p, d, i as int)),
        decreases n - i,
    {
        let c = chars[i];
        proof {
            lemma_byte_offset_step(p, i as int);
            lemma_byte_offset_bound(p, i + 1);
        }
        if c == '{' || c == '}' {
            if i + 1 < n && chars[i + 1] == c {
                proof {
                    lemma_byte_offset_step(p, i + 1);
                    lemma_byte_offset_bound(p, i + 2);
                    lemma_prepend_twice(ans@, seq![c], format_from(p, d, i + 2));
                    assert(ans@ + seq![c] == ans@.push(c));
                }
                offset = offset + width_of(c) + width_of(c);
                push_char(&mut ans, c);
                i += 2;
            } else if c == '}' {
                return Err(
                    DynamicFormatError::TokenError {
                        pattern: pattern.to_owned(),
                        desc: "Unmatched token '}'".to_owned(),
                        pos: offset,
                    },
                );
            } else {
                let mut j: usize = i + 1;
                let mut end: usize = offset + width_of(c);
                proof {
                    lemma_first_close(p, i + 1);
                }
                while j < n && chars[j] != '}'
                    invariant
                        chars@ == p,
                        n == p.len(),
                        i < j <= n,
                        byte_len(p) == total,
                        end == byte_offset(p, j as int),
                        first_close(p, i + 1) == first_close(p, j as int),
                    decreases n - j,
                {
                    proof {
                        lemma_byte_offset_step(p, j as int);
                        lemma_byte_offset_bound(p, j + 1);
                    }
                    end = end + width_of(chars[j]);
                    j += 1;
                }
                if j >= n {
                    return Err(
                        DynamicFormatError::TokenError {
                            pattern: pattern.to_owned(),
                            desc: "Unmatched token '{'".to_owned(),
                            pos: offset,
                        },
                    );
                }
                let key = from_chars(&chars, i + 1, j);
                match dictionary.get(key.as_str()) {
                    Some(value) => {
                        proof {
                            lemma_byte_offset_step(p, j as int);
                            lemma_byte_offset_bound(p, j + 1);
                            lemma_prepend_twice(ans@, d[key@], format_from(p, d, j + 1));
                        }
                        ans.append(value.as_str());
                        offset = end + width_of(chars[j]);
                        i = j + 1;
                    },
                    None => {
                        return Err(
                            DynamicFormatError::KeyError {
                                pattern: pattern.to_owned(),
                                key,
                                dict_keys: dictionary.keys(),
                                pos: offset,
                            },
                        );
                    },
                }
            }
        } else {
            proof {
                lemma_prepend_twice(ans@, seq![c], format_from(p, d, i + 1));
                assert(ans@ + seq![c] == ans@.push(c));
            }
            offset = offset + width_of(c);
            push_char(&mut ans, c);
            i += 1;
        }
    }
    proof {
        assert(ans@ + Seq::<char>::empty() == ans@);
    }
    Ok(ans)
}

/// Formats `pattern` with `dictionary` for a command of `stage`.
///
/// The result is that of [`_dynamic_format`]; an error names the stage and,
/// for a key that the dictionary lacks, lists what the dictionary holds.
pub fn dynamic_format(pattern: &str, dictionary: &Dictionary, stage: Stage) -> (r: CheckerResult<
    String,
>)
    ensures
        reports_in_stage(
            r,
            pattern@,
            dictionary.spec_entries(),
            stage,
            formatted(pattern@, dictionary@),
        ),
{
    match _dynamic_format(pattern, dictionary) {
        Ok(s) => Ok(s),
        Err(DynamicFormatError::KeyError { pattern, key, dict_keys, pos }) => Err(
            Box::new(
                CheckerError::ArgFormattingKeyError {
                    stage,
                    pattern,
                    key,
                    entries: dictionary.entries(),
                    pos,
                },
            ),
        ),
        Err(DynamicFormatError::TokenError { pattern, desc, pos }) => Err(
            Box::new(CheckerError::ArgFormattingTokenError { stage, pattern, desc, pos }),
        ),
    }
}

/// Index of the first of `patterns`, from index `i` on, that does not
/// format to a text; `patterns.len()` if each does.
pub open spec fn first_failure(
    patterns: Seq<Seq<char>>,
    dict: Map<Seq<char>, Seq<char>>,
    i: int,
) -> int
    decreases patterns.len() - i,
{
    if i < 0 || i >= patterns.len() {
        patterns.len() as int
    } else if formatted(patterns[i], dict) is Text {
        first_failure(patterns, dict, i + 1)
    } else {
        i
    }
}

/// The texts that `patterns` format to, one for each.
pub open spec fn formatted_texts(patterns: Seq<Seq<char>>, dict: Map<Seq<char>, Seq<char>>) -> Seq<
    Seq<char>,
> {
    Seq::new(patterns.len(), |i: int| formatted(patterns[i], dict)->Text_0)
}

/// Whether `r` is what formatting `patterns` one after the other comes to:
/// all the texts, or the error of the first pattern that has one.
pub open spec fn reports_each(
    r: CheckerResult<Vec<String>>,
    patterns: Seq<Seq<char>>,
    dict: Map<Seq<char>, Seq<char>>,
    entries: Seq<(Seq<char>, Seq<char>)>,
    stage: Stage,
) -> bool {
    let k = first_failure(patterns, dict, 0);
    if k >= patterns.len() {
        r matches Ok(texts) && views(texts@) == formatted_texts(patterns, dict)
    } else {
        r matches Err(e) && reports_in_stage(
            Err::<String, Box<CheckerError>>(e),
            patterns[k],
            entries,
            stage,
            formatted(patterns[k], dict),
        )
    }
}

/// Formats each of `patterns` with `dictionary` for a command of `stage`,
/// and stops at the first that cannot be formatted.
pub fn format_each(patterns: &Vec<String>, dictionary: &Dictionary, stage: Stage) -> (r: CheckerResult<
    Vec<String>,
>)
    ensures
        reports_each(r, views(patterns@), dictionary@, dictionary.spec_entries(), stage),
{
    let ghost ps = views(patterns@);
    let ghost d = dictionary@;
    let mut texts: Vec<String> = Vec::with_capacity(patterns.len());
    let mut i: usize = 0;
    while i < patterns.len()
        invariant
            i <= patterns.len(),
            ps == views(patterns@),
            d == dictionary@,
            texts.len() == i,
            first_failure(ps, d, 0) == first_failure(ps, d, i as int),
            forall|k: int| 0 <= k < i ==> formatted(ps[k], d) == Formatted::Text(texts[k]@),
        decreases patterns.len() - i,
    {
        assert(ps[i as int] == patterns[i as int]@);
        match dynamic_format(patterns[i].as_str(), dictionary, stage) {
            Ok(text) => {
                texts.push(text);
            },
            Err(e) => {
                return Err(e);
            },
        }
        i += 1;
    }
    assert(views(texts@) =~= formatted_texts(ps, d));
    Ok(texts)
}

/// One part of a template: text that stands for itself, or a placeholder.
pub enum Piece {
    /// Text to be reproduced as it is, braces included.
    Literal(Seq<char>),
    /// A placeholder with this key.
    Placeholder(Seq<char>),
}

/// How one character of literal text is written in a pattern.
pub open spec fn escape_char(c: char) -> Seq<char> {
    if c == '{' || c == '}' {
        seq![c, c]
    } else {
        seq![c]
    }
}

/// `text` as it is written in a pattern: every brace doubled.
pub open spec fn escape(text: Seq<char>) -> Seq<char>
    decreases text.len(),
{
    if text.len() == 0 {
        Seq::empty()
    } else {
        escape_char(text[0]) + escape(text.drop_first())
    }
}

/// How one piece is written in a pattern.
pub open spec fn piece_pattern(piece: Piece) -> Seq<char> {
    match piece {
        Piece::Literal(text) => escape(text),
        Piece::Placeholder(key) => seq!['{'] + key + seq!['}'],
    }
}

/// What one piece stands for under `dict`.
pub open spec fn piece_value(piece: Piece, dict: Map<Seq<char>, Seq<char>>) -> Seq<char> {
    match piece {
        Piece::Literal(text) => text,
        Piece::Placeholder(key) => dict[key],
    }
}

/// The pattern that writes down `pieces`, one after the other.
pub open spec fn template(pieces: Seq<Piece>) -> Seq<char>
    decreases pieces.len(),
{
    if pieces.len() == 0 {
        Seq::empty()
    } else {
        piece_pattern(pieces[0]) + template(pieces.drop_first())
    }
}

/// The text that `pieces` stand for under `dict`.
pub open spec fn substituted(pieces: Seq<Piece>, dict: Map<Seq<char>, Seq<char>>) -> Seq<char>
    decreases pieces.len(),
{
    if pieces.len() == 0 {
        Seq::empty()
    } else {
        piece_value(pieces[0], dict) + substituted(pieces.drop_first(), dict)
    }
}

/// Whether every placeholder among `pieces` has a key without braces that
/// `dict` holds.
pub open spec fn resolvable(pieces: Seq<Piece>, dict: Map<Seq<char>, Seq<char>>) -> bool {
    forall|i: int|
        0 <= i < pieces.len() ==> (#[trigger] pieces[i] matches Piece::Placeholder(key)
            ==> brace_free(key) && dict.contains_key(key))
}

/// Escaped text that stands at index `i` of a pattern formats to the text
/// itself, followed by what the rest of the pattern formats to.
pub proof fn lemma_literal_at(
    p: Seq<char>,
    dict: Map<Seq<char>, Seq<char>>,
    i: int,
    text: Seq<char>,
)
    requires
        0 <= i,
        i + escape(text).len() <= p.len(),
        p.subrange(i, i + escape(text).len()) == escape(text),
    ensures
        format_from(p, dict, i) == prepend(text, format_from(p, dict, i + escape(text).len())),
    decreases text.len(),
{
    if text.len() == 0 {
        lemma_prepend_twice(Seq::empty(), Seq::empty(), format_from(p, dict, i));
    } else {
        let c = text[0];
        let rest = text.drop_first();
        let w = escape_char(c).len() as int;
        let e = escape(text);
        assert(e == escape_char(c) + escape(rest));
        assert forall|k: int| 0 <= k < e.len() implies p[i + k] == e[k] by {
            assert(p.subrange(i, i + e.len())[k] == p[i + k]);
        }
        assert(p[i] == e[0]);
        if c == '{' || c == '}' {
            assert(p[i + 1] == e[1]);
        }
        assert(p.subrange(i + w, i + w + escape(rest).len()) =~= escape(rest)) by {
            assert forall|k: int| 0 <= k < escape(rest).len() implies p[i + w + k] == escape(
                rest,
            )[k] by {
                assert(e[w + k] == escape(rest)[k]);
            }
        }
        lemma_literal_at(p, dict, i + w, rest);
        lemma_prepend_twice(seq![c], rest, format_from(p, dict, i + e.len()));
        assert(seq![c] + rest == text);
    }
}

/// A placeholder that stands at index `i` of a pattern, with a key that has
/// no brace and that `dict` holds, formats to the text of its key, followed
/// by what the rest of the pattern formats to.
pub proof fn lemma_placeholder_at(
    p: Seq<char>,
    dict: Map<Seq<char>, Seq<char>>,
    i: int,
    key: Seq<char>,
)
    requires
        0 <= i,
        i + key.len() + 2 <= p.len(),
        p.subrange(i, i + key.len() + 2) == seq!['{'] + key + seq!['}'],
        brace_free(key),
        dict.contains_key(key),
    ensures
        format_from(p, dict, i) == prepend(dict[key], format_from(p, dict, i + key.len() + 2)),
{
    let w = seq!['{'] + key + seq!['}'];
    let close = i + key.len() + 1;
    assert forall|k: int| 0 <= k < w.len() implies p[i + k] == w[k] by {
        assert(p.subrange(i, i + key.len() + 2)[k] == p[i + k]);
    }
    assert(p[i] == w[0]);
    assert(p[close] == w[key.len() as int + 1]);
    assert forall|k: int| i + 1 <= k < close implies p[k] == key[k - i - 1] by {
        assert(p[i + (k - i)] == w[k - i]);
    }
    if key.len() == 0 {
        assert(p[i + 1] == '}');
    } else {
        assert(p[i + 1] == key[0]);
    }
    lemma_first_close_is(p, i + 1, close);
    assert(p.subrange(i + 1, close) =~= key);
}

/// The first `}` at or after `from` is at `at`, if `at` holds one and
/// nothing between does.
pub proof fn lemma_first_close_is(p: Seq<char>, from: int, at: int)
    requires
        0 <= from <= at < p.len(),
        p[at] == '}',
        forall|k: int| from <= k < at ==> p[k] != '}',
    ensures
        first_close(p, from) == at,
    decreases at - from,
{
    if from < at {
        lemma_first_close_is(p, from + 1, at);
    }
}

/// A template whose pieces stand from index `i` to the end of a pattern
/// formats to what the pieces stand for.
pub proof fn lemma_template_at(
    p: Seq<char>,
    dict: Map<Seq<char>, Seq<char>>,
    i: int,
    pieces: Seq<Piece>,
)
    requires
        0 <= i <= p.len(),
        p.skip(i) == template(pieces),
        resolvable(pieces, dict),
    ensures
        format_from(p, dict, i) == Formatted::Text(substituted(pieces, dict)),
    decreases pieces.len(),
{
    if pieces.len() == 0 {
        assert(p.skip(i).len() == 0);
    } else {
        let first = pieces[0];
        let rest = pieces.drop_first();
        let w = piece_pattern(first).len() as int;
        assert(p.skip(i) == piece_pattern(first) + template(rest));
        assert(p.subrange(i, i + w) =~= piece_pattern(first)) by {
            assert forall|k: int| 0 <= k < w implies p[i + k] == piece_pattern(first)[k] by {
                assert(p.skip(i)[k] == p[i + k]);
            }
        }
        assert(p.skip(i + w) =~= template(rest)) by {
            assert forall|k: int| 0 <= k < template(rest).len() implies p[i + w + k] == template(
                rest,
            )[k] by {
                assert(p.skip(i)[w + k] == p[i + w + k]);
            }
        }
        assert(resolvable(rest, dict)) by {
            assert forall|k: int| 0 <= k < rest.len() implies (#[trigger] rest[k] matches Piece::Placeholder(
                key,
            ) ==> brace_free(key) && dict.contains_key(key)) by {
                assert(rest[k] == pieces[k + 1]);
            }
        }
        lemma_template_at(p, dict, i + w, rest);
        match first {
            Piece::Literal(text) => {
                lemma_literal_at(p, dict, i, text);
            },
            Piece::Placeholder(key) => {
                assert(pieces[0] matches Piece::Placeholder(k) ==> brace_free(k)
                    && dict.contains_key(k));
                lemma_placeholder_at(p, dict, i, key);
            },
        }
    }
}

/// Formatting substitutes: a pattern written from literal texts, with their
/// braces doubled, and from placeholders whose keys have no brace and are in
/// the dictionary formats to the literal texts and the texts of the keys, in
/// the same order.
pub proof fn lemma_format_substitutes(pieces: Seq<Piece>, dict: Map<Seq<char>, Seq<char>>)
    requires
        resolvable(pieces, dict),
    ensures
        formatted(template(pieces), dict) == Formatted::Text(substituted(pieces, dict)),
{
    let p = template(pieces);
    assert(p.skip(0) == p);
    lemma_template_at(p, dict, 0, pieces);
}

/// Escaping round-trips: a text whose braces were all doubled formats back
/// to the text, whatever the dictionary holds.
pub proof fn lemma_format_unescapes(text: Seq<char>, dict: Map<Seq<char>, Seq<char>>)
    ensures
        formatted(escape(text), dict) == Formatted::Text(text),
{
    let p = escape(text);
    assert(p.subrange(0, p.len() as int) == p);
    lemma_literal_at(p, dict, 0, text);
    assert(text + Seq::<char>::empty() == text);
}

} // verus!
