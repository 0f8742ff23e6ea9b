//! The text-preparation sanitizer for the synthesis path.
//!
//! Raw client text is turned into speech-safe text in seven steps: line
//! endings are normalized to line feeds, the text is compatibility-normalized
//! (NFKC), whitespace other than line feeds is unified into plain spaces,
//! everything outside a whitelist of letters, digits, separator space, comma
//! forms, period forms and line feeds is deleted, runs of spaces collapse to
//! one, runs of three or more line feeds collapse to two, and the ends are
//! trimmed. Each step has a specification over `Seq<char>`; the executable
//! pipeline is proved to compute exactly their composition.

use vstd::prelude::*;

use crate::chars::{
    char_is_white, char_keeps, chars_to_string, is_white, keeps_char, str_chars, unify_char,
};

verus! {

/// Line-ending normalization: each carriage-return/line-feed pair becomes a
/// single line feed, and each remaining carriage return becomes a line feed.
pub open spec fn normalize_newlines(s: Seq<char>) -> Seq<char>
    decreases s.len(),
{
    if s.len() == 0 {
        Seq::empty()
    } else if s.len() >= 2 && s[0] == '\r' && s[1] == '\n' {
        seq!['\n'] + normalize_newlines(s.skip(2))
    } else if s[0] == '\r' {
        seq!['\n'] + normalize_newlines(s.skip(1))
    } else {
        seq![s[0]] + normalize_newlines(s.skip(1))
    }
}

/// Whitespace unification applied to a whole sequence: every whitespace
/// character except the line feed becomes a plain space.
pub open spec fn unify_white(s: Seq<char>) -> Seq<char> {
    Seq::new(s.len(), |i: int| unify_char(s[i]))
}

/// Whitelist filtering: characters outside [`keeps_char`] are deleted.
pub open spec fn filter_kept(s: Seq<char>) -> Seq<char>
    decreases s.len(),
{
    if s.len() == 0 {
        Seq::empty()
    } else if keeps_char(s[0]) {
        seq![s[0]] + filter_kept(s.skip(1))
    } else {
        filter_kept(s.skip(1))
    }
}

/// Space compression: each run of two or more spaces collapses to one.
pub open spec fn squeeze_spaces(s: Seq<char>) -> Seq<char>
    decreases s.len(),
{
    if s.len() == 0 {
        Seq::empty()
    } else if s.len() >= 2 && s[0] == ' ' && s[1] == ' ' {
        squeeze_spaces(s.skip(1))
    } else {
        seq![s[0]] + squeeze_spaces(s.skip(1))
    }
}

/// Blank-line compression: each run of three or more line feeds collapses to
/// exactly two, so at most one blank line survives.
pub open spec fn squeeze_newlines(s: Seq<char>) -> Seq<char>
    decreases s.len(),
{
    if s.len() >= 3 && s[0] == '\n' && s[1] == '\n' && s[2] == '\n' {
        squeeze_newlines(s.skip(1))
    } else if s.len() == 0 {
        Seq::empty()
    } else {
        seq![s[0]] + squeeze_newlines(s.skip(1))
    }
}

/// Removal of leading whitespace.
pub open spec fn trim_front(s: Seq<char>) -> Seq<char>
    decreases s.len(),
{
    if s.len() > 0 && is_white(s[0]) {
        trim_front(s.skip(1))
    } else {
        s
    }
}

/// Removal of trailing whitespace.
pub open spec fn trim_back(s: Seq<char>) -> Seq<char>
    decreases s.len(),
{
    if s.len() > 0 && is_white(s.last()) {
        trim_back(s.drop_last())
    } else {
        s
    }
}

/// Removal of leading and trailing whitespace.
pub open spec fn trim_white(s: Seq<char>) -> Seq<char> {
    trim_back(trim_front(s))
}

/// The result of compatibility normalization (NFKC). The mapping is defined
/// by the Unicode standard and is far too large to restate here, so it stays
/// abstract; the executable pipeline obtains it from the
/// `unicode-normalization` crate.
pub uninterp spec fn nfkc_of(s: Seq<char>) -> Seq<char>;

/// The whole sanitizer, as the composition of the seven steps.
pub open spec fn sanitize_spec(s: Seq<char>) -> Seq<char> {
    trim_white(
        squeeze_newlines(
            squeeze_spaces(filter_kept(unify_white(nfkc_of(normalize_newlines(s))))),
        ),
    )
}

/// Relies on `unicode_normalization::UnicodeNormalization::nfkc`: compatibility
/// decomposition followed by canonical composition (Unicode NFKC, UAX #15).
/// Normalization is idempotent, so the result is itself normalized; an empty
/// input yields an empty result.
#[verifier::external_body]
fn nfkc_chars(v: &Vec<char>) -> (r: Vec<char>)
    ensures
        r@ == nfkc_of(v@),
        nfkc_of(r@) == r@,
        v@.len() == 0 ==> r@ == v@,
{
    unicode_normalization::UnicodeNormalization::nfkc(v.iter().cloned()).collect()
}

fn normalize_newlines_vec(v: &Vec<char>) -> (r: Vec<char>)
    ensures
        r@ == normalize_newlines(v@),
{
    let mut r: Vec<char> = Vec::new();
    let mut i: usize = 0;
    proof {
        assert(v@.skip(0) =~= v@);
        assert(r@ + normalize_newlines(v@) =~= normalize_newlines(v@));
    }
    while i < v.len()
        invariant
            i <= v.len(),
            normalize_newlines(v@) == r@ + normalize_newlines(v@.skip(i as int)),
        decreases v.len() - i,
    {
        let ghost tail = v@.skip(i as int);
        if v[i] == '\r' && v.len() - i > 1 && v[i + 1] == '\n' {
            r.push('\n');
            proof {
                assert(tail.skip(2) =~= v@.skip(i + 2));
                assert(r@ + normalize_newlines(v@.skip(i + 2)) =~= (r@.drop_last() + (seq!['\n']
                    + normalize_newlines(tail.skip(2)))));
            }
            i = i + 2;
        } else if v[i] == '\r' {
            r.push('\n');
            proof {
                assert(tail.skip(1) =~= v@.skip(i + 1));
                assert(r@ + normalize_newlines(v@.skip(i + 1)) =~= (r@.drop_last() + (seq!['\n']
                    + normalize_newlines(tail.skip(1)))));
            }
            i = i + 1;
        } else {
            let c = v[i];
            r.push(c);
            proof {
                assert(tail.skip(1) =~= v@.skip(i + 1));
                assert(r@ + normalize_newlines(v@.skip(i + 1)) =~= (r@.drop_last() + (seq![c]
                    + normalize_newlines(tail.skip(1)))));
            }
            i = i + 1;
        }
    }
    proof {
        assert(v@.skip(v@.len() as int) =~= Seq::<char>::empty());
        assert(r@ + Seq::<char>::empty() =~= r@);
    }
    r
}

fn unify_white_vec(v: &Vec<char>) -> (r: Vec<char>)
    ensures
        r@ == unify_white(v@),
{
    let mut r: Vec<char> = Vec::new();
    let mut i: usize = 0;
    while i < v.len()
        invariant
            i <= v.len(),
            r@.len() == i,
            forall|j: int| 0 <= j < i ==> r@[j] == unify_char(v@[j]),
        decreases v.len() - i,
    {
        let c = v[i];
        if c == '\n' {
            r.push('\n');
        } else if char_is_white(c) {
            r.push(' ');
        } else {
            r.push(c);
        }
        i = i + 1;
    }
    proof {
        assert(r@ =~= unify_white(v@));
    }
    r
}

fn filter_kept_vec(v: &Vec<char>) -> (r: Vec<char>)
    ensures
        r@ == filter_kept(v@),
{
    let mut r: Vec<char> = Vec::new();
    let mut i: usize = 0;
    proof {
        assert(v@.skip(0) =~= v@);
        assert(r@ + filter_kept(v@) =~= filter_kept(v@));
    }
    while i < v.len()
        invariant
            i <= v.len(),
            filter_kept(v@) == r@ + filter_kept(v@.skip(i as int)),
        decreases v.len() - i,
    {
        let ghost tail = v@.skip(i as int);
        let c = v[i];
        if char_keeps(c) {
            r.push(c);
            proof {
                assert(tail.skip(1) =~= v@.skip(i + 1));
                assert(r@ + filter_kept(v@.skip(i + 1)) =~= (r@.drop_last() + (seq![c]
                    + filter_kept(tail.skip(1)))));
            }
        } else {
            proof {
                assert(tail.skip(1) =~= v@.skip(i + 1));
            }
        }
        i = i + 1;
    }
    proof {
        assert(v@.skip(v@.len() as int) =~= Seq::<char>::empty());
        assert(r@ + Seq::<char>::empty() =~= r@);
    }
    r
}

fn squeeze_spaces_vec(v: &Vec<char>) -> (r: Vec<char>)
    ensures
        r@ == squeeze_spaces(v@),
{
    let mut r: Vec<char> = Vec::new();
    let mut i: usize = 0;
    proof {
        assert(v@.skip(0) =~= v@);
        assert(r@ + squeeze_spaces(v@) =~= squeeze_spaces(v@));
    }
    while i < v.len()
        invariant
            i <= v.len(),
            squeeze_spaces(v@) == r@ + squeeze_spaces(v@.skip(i as int)),
        decreases v.len() - i,
    {
        let ghost tail = v@.skip(i as int);
        let c = v[i];
        if c == ' ' && v.len() - i > 1 && v[i + 1] == ' ' {
            proof {
                assert(tail.skip(1) =~= v@.skip(i + 1));
            }
        } else {
            r.push(c);
            proof {
                assert(tail.skip(1) =~= v@.skip(i + 1));
                assert(r@ + squeeze_spaces(v@.skip(i + 1)) =~= (r@.drop_last() + (seq![c]
                    + squeeze_spaces(tail.skip(1)))));
            }
        }
        i = i + 1;
    }
    proof {
        assert(v@.skip(v@.len() as int) =~= Seq::<char>::empty());
        assert(r@ + Seq::<char>::empty() =~= r@);
    }
    r
}

fn squeeze_newlines_vec(v: &Vec<char>) -> (r: Vec<char>)
    ensures
        r@ == squeeze_newlines(v@),
{
    let mut r: Vec<char> = Vec::new();
    let mut i: usize = 0;
    proof {
        assert(v@.skip(0) =~= v@);
        assert(r@ + squeeze_newlines(v@) =~= squeeze_newlines(v@));
    }
    while i < v.len()
        invariant
            i <= v.len(),
            squeeze_newlines(v@) == r@ + squeeze_newlines(v@.skip(i as int)),
        decreases v.len() - i,
    {
        let ghost tail = v@.skip(i as int);
        let c = v[i];
        if c == '\n' && v.len() - i > 2 && v[i + 1] == '\n' && v[i + 2] == '\n' {
            proof {
                assert(tail.skip(1) =~= v@.skip(i + 1));
            }
        } else {
            r.push(c);
            proof {
                assert(tail.skip(1) =~= v@.skip(i + 1));
                assert(r@ + squeeze_newlines(v@.skip(i + 1)) =~= (r@.drop_last() + (seq![c]
                    + squeeze_newlines(tail.skip(1)))));
            }
        }
        i = i + 1;
    }
    proof {
        assert(v@.skip(v@.len() as int) =~= Seq::<char>::empty());
        assert(r@ + Seq::<char>::empty() =~= r@);
    }
    r
}

fn trim_white_vec(v: &Vec<char>) -> (r: Vec<char>)
    ensures
        r@ == trim_white(v@),
{
    let mut start: usize = 0;
    proof {
        assert(v@.skip(0) =~= v@);
    }
    while start < v.len() && char_is_white(v[start])
        invariant
            start <= v.len(),
            trim_front(v@) == trim_front(v@.skip(start as int)),
        decreases v.len() - start,
    {
        proof {
            assert(v@.skip(start as int).skip(1) =~= v@.skip(start + 1));
        }
        start = start + 1;
    }
    let ghost t = v@.skip(start as int);
    proof {
        assert(trim_front(v@) == t);
    }
    let mut end: usize = v.len();
    proof {
        assert(t.take(end - start as int) =~= t);
    }
    while end > start && char_is_white(v[end - 1])
        invariant
            start <= end <= v.len(),
            t == v@.skip(start as int),
            trim_back(t) == trim_back(t.take(end - start as int)),
        decreases end,
    {
        proof {
            let w = t.take(end - start as int);
            assert(w.last() == v@[end - 1]);
            assert(w.drop_last() =~= t.take(end - 1 - start as int));
        }
        end = end - 1;
    }
    proof {
        if end > start {
            let w = t.take(end - start as int);
            assert(w.last() == v@[end - 1]);
            assert(trim_back(w) == w);
        } else {
            assert(t.take(0) =~= Seq::<char>::empty());
        }
    }
    let mut r: Vec<char> = Vec::new();
    let mut i: usize = start;
    while i < end
        invariant
            start <= i <= end <= v.len(),
            t == v@.skip(start as int),
            r@ == t.take(i - start as int),
        decreases end - i,
    {
        r.push(v[i]);
        proof {
            assert(t.take(i - start as int).push(v@[i as int]) =~= t.take(i + 1 - start as int));
        }
        i = i + 1;
    }
    proof {
        assert(r@ == trim_back(t.take(end - start as int)));
        assert(r@ == trim_white(v@));
    }
    r
}

/// Cleans raw text into speech-safe text: line endings and whitespace are
/// normalized, the text is compatibility-normalized, everything outside the
/// whitelist of letters, digits, separator space, comma forms, period forms
/// and line feeds is deleted, and runs of spaces, runs of blank lines and
/// the ends are compressed and trimmed.
pub fn sanitize_text(text: &str) -> (r: String)
    ensures
        r@ == sanitize_spec(text@),
{
    let v0 = str_chars(text);
    let v1 = normalize_newlines_vec(&v0);
    let v2 = nfkc_chars(&v1);
    let v3 = unify_white_vec(&v2);
    let v4 = filter_kept_vec(&v3);
    let v5 = squeeze_spaces_vec(&v4);
    let v6 = squeeze_newlines_vec(&v5);
    let v7 = trim_white_vec(&v6);
    chars_to_string(&v7)
}

/// No two adjacent characters are both spaces.
pub open spec fn no_double_space(s: Seq<char>) -> bool {
    forall|i: int| 0 <= i && i + 1 < s.len() ==> !(#[trigger] s[i] == ' ' && s[i + 1] == ' ')
}

/// No three adjacent characters are all line feeds.
pub open spec fn no_triple_newline(s: Seq<char>) -> bool {
    forall|i: int|
        0 <= i && i + 2 < s.len() ==> !(#[trigger] s[i] == '\n' && s[i + 1] == '\n' && s[i + 2]
            == '\n')
}

/// The ends carry no whitespace.
pub open spec fn trimmed(s: Seq<char>) -> bool {
    s.len() > 0 ==> !is_white(s[0]) && !is_white(s.last())
}

/// Every character is a line feed, a space, or not whitespace at all: the
/// shape that whitespace unification leaves behind.
pub open spec fn unified_char(c: char) -> bool {
    c == '\n' || c == ' ' || !is_white(c)
}

/// Every character satisfies `q`.
pub open spec fn all_chars(s: Seq<char>, q: spec_fn(char) -> bool) -> bool {
    forall|i: int| 0 <= i < s.len() ==> q(#[trigger] s[i])
}

proof fn lemma_filter_pointwise(s: Seq<char>, q: spec_fn(char) -> bool)
    requires
        all_chars(s, q),
    ensures
        all_chars(filter_kept(s), q),
    decreases s.len(),
{
    if s.len() > 0 {
        assert(all_chars(s.skip(1), q));
        lemma_filter_pointwise(s.skip(1), q);
        let r = filter_kept(s);
        assert forall|i: int| 0 <= i < r.len() implies q(r[i]) by {
            if keeps_char(s[0]) {
                if i == 0 {
                    assert(r[0] == s[0]);
                } else {
                    assert(r[i] == filter_kept(s.skip(1))[i - 1]);
                }
            } else {
                assert(r[i] == filter_kept(s.skip(1))[i]);
            }
        }
    }
}

pub(crate) proof fn lemma_squeeze_spaces_pointwise(s: Seq<char>, q: spec_fn(char) -> bool)
    requires
        all_chars(s, q),
    ensures
        all_chars(squeeze_spaces(s), q),
    decreases s.len(),
{
    if s.len() > 0 {
        assert(all_chars(s.skip(1), q));
        lemma_squeeze_spaces_pointwise(s.skip(1), q);
        let r = squeeze_spaces(s);
        assert forall|i: int| 0 <= i < r.len() implies q(r[i]) by {
            if s.len() >= 2 && s[0] == ' ' && s[1] == ' ' {
                assert(r[i] == squeeze_spaces(s.skip(1))[i]);
            } else if i == 0 {
                assert(r[0] == s[0]);
            } else {
                assert(r[i] == squeeze_spaces(s.skip(1))[i - 1]);
            }
        }
    }
}

proof fn lemma_squeeze_newlines_pointwise(s: Seq<char>, q: spec_fn(char) -> bool)
    requires
        all_chars(s, q),
    ensures
        all_chars(squeeze_newlines(s), q),
    decreases s.len(),
{
    if s.len() > 0 {
        assert(all_chars(s.skip(1), q));
        lemma_squeeze_newlines_pointwise(s.skip(1), q);
        let r = squeeze_newlines(s);
        assert forall|i: int| 0 <= i < r.len() implies q(r[i]) by {
            if s.len() >= 3 && s[0] == '\n' && s[1] == '\n' && s[2] == '\n' {
                assert(r[i] == squeeze_newlines(s.skip(1))[i]);
            } else if i == 0 {
                assert(r[0] == s[0]);
            } else {
                assert(r[i] == squeeze_newlines(s.skip(1))[i - 1]);
            }
        }
    }
}

/// Trimming from the front leaves a suffix of the sequence.
proof fn lemma_trim_front_suffix(s: Seq<char>)
    ensures
        exists|k: int| 0 <= k <= s.len() && trim_front(s) == s.skip(k),
    decreases s.len(),
{
    if s.len() > 0 && is_white(s[0]) {
        lemma_trim_front_suffix(s.skip(1));
        let k = choose|k: int| 0 <= k <= s.skip(1).len() && trim_front(s.skip(1)) == s.skip(1).skip(
            k,
        );
        assert(s.skip(1).skip(k) =~= s.skip(k + 1));
        assert(trim_front(s) == s.skip(k + 1));
    } else {
        assert(s.skip(0) =~= s);
        assert(trim_front(s) == s.skip(0));
    }
}

/// Trimming from the back leaves a prefix of the sequence.
proof fn lemma_trim_back_prefix(s: Seq<char>)
    ensures
        exists|k: int| 0 <= k <= s.len() && trim_back(s) == s.take(k),
    decreases s.len(),
{
    if s.len() > 0 && is_white(s.last()) {
        lemma_trim_back_prefix(s.drop_last());
        let k = choose|k: int|
            0 <= k <= s.drop_last().len() && trim_back(s.drop_last()) == s.drop_last().take(k);
        assert(s.drop_last().take(k) =~= s.take(k));
        assert(trim_back(s) == s.take(k));
    } else {
        assert(s.take(s.len() as int) =~= s);
        assert(trim_back(s) == s.take(s.len() as int));
    }
}

pub(crate) proof fn lemma_squeeze_spaces_heads(s: Seq<char>)
    ensures
        squeeze_spaces(s).len() <= s.len(),
        s.len() > 0 ==> squeeze_spaces(s).len() > 0 && squeeze_spaces(s)[0] == s[0],
    decreases s.len(),
{
    if s.len() > 0 {
        lemma_squeeze_spaces_heads(s.skip(1));
    }
}

proof fn lemma_squeeze_newlines_heads(s: Seq<char>)
    ensures
        squeeze_newlines(s).len() <= s.len(),
        s.len() > 0 ==> squeeze_newlines(s).len() > 0 && squeeze_newlines(s)[0] == s[0],
        squeeze_newlines(s).len() >= 2 ==> squeeze_newlines(s)[1] == s[1],
    decreases s.len(),
{
    if s.len() > 0 {
        lemma_squeeze_newlines_heads(s.skip(1));
    }
}

pub(crate) proof fn lemma_squeeze_spaces_no_double(s: Seq<char>)
    ensures
        no_double_space(squeeze_spaces(s)),
    decreases s.len(),
{
    if s.len() > 0 {
        lemma_squeeze_spaces_no_double(s.skip(1));
        lemma_squeeze_spaces_heads(s.skip(1));
        let r = squeeze_spaces(s);
        assert forall|i: int| 0 <= i && i + 1 < r.len() implies !((#[trigger] r[i]) == ' ' && r[i
            + 1] == ' ') by {
            if s.len() >= 2 && s[0] == ' ' && s[1] == ' ' {
                assert(r == squeeze_spaces(s.skip(1)));
            } else {
                let rt = squeeze_spaces(s.skip(1));
                if i == 0 {
                    assert(r[0] == s[0]);
                    assert(r[1] == rt[0]);
                    if s[0] == ' ' {
                        assert(s.len() >= 2 && s[1] != ' ');
                        assert(rt[0] == s.skip(1)[0]);
                    }
                } else {
                    assert(r[i] == rt[i - 1] && r[i + 1] == rt[i]);
                }
            }
        }
    }
}

proof fn lemma_squeeze_newlines_no_triple(s: Seq<char>)
    ensures
        no_triple_newline(squeeze_newlines(s)),
    decreases s.len(),
{
    if s.len() > 0 {
        lemma_squeeze_newlines_no_triple(s.skip(1));
        lemma_squeeze_newlines_heads(s.skip(1));
        let r = squeeze_newlines(s);
        assert forall|i: int| 0 <= i && i + 2 < r.len() implies !((#[trigger] r[i]) == '\n' && r[i
            + 1] == '\n' && r[i + 2] == '\n') by {
            if s.len() >= 3 && s[0] == '\n' && s[1] == '\n' && s[2] == '\n' {
                assert(r == squeeze_newlines(s.skip(1)));
            } else {
                let rt = squeeze_newlines(s.skip(1));
                if i == 0 {
                    assert(r[0] == s[0]);
                    assert(r[1] == rt[0] && r[2] == rt[1]);
                    assert(rt[0] == s.skip(1)[0]);
                    assert(rt[1] == s.skip(1)[1]);
                } else {
                    assert(r[i] == rt[i - 1] && r[i + 1] == rt[i] && r[i + 2] == rt[i + 1]);
                }
            }
        }
    }
}

proof fn lemma_squeeze_newlines_keeps_no_double(s: Seq<char>)
    requires
        no_double_space(s),
    ensures
        no_double_space(squeeze_newlines(s)),
    decreases s.len(),
{
    if s.len() > 0 {
        assert(no_double_space(s.skip(1)));
        lemma_squeeze_newlines_keeps_no_double(s.skip(1));
        lemma_squeeze_newlines_heads(s.skip(1));
        let r = squeeze_newlines(s);
        assert forall|i: int| 0 <= i && i + 1 < r.len() implies !((#[trigger] r[i]) == ' ' && r[i
            + 1] == ' ') by {
            if s.len() >= 3 && s[0] == '\n' && s[1] == '\n' && s[2] == '\n' {
                assert(r == squeeze_newlines(s.skip(1)));
            } else {
                let rt = squeeze_newlines(s.skip(1));
                if i == 0 {
                    assert(r[0] == s[0]);
                    assert(r[1] == rt[0]);
                    assert(s.len() >= 2 ==> rt[0] == s.skip(1)[0]);
                } else {
                    assert(r[i] == rt[i - 1] && r[i + 1] == rt[i]);
                }
            }
        }
    }
}

proof fn lemma_trim_front_head(s: Seq<char>)
    ensures
        trim_front(s).len() > 0 ==> !is_white(trim_front(s)[0]),
    decreases s.len(),
{
    if s.len() > 0 && is_white(s[0]) {
        lemma_trim_front_head(s.skip(1));
    }
}

proof fn lemma_trim_back_last(s: Seq<char>)
    ensures
        trim_back(s).len() > 0 ==> !is_white(trim_back(s).last()),
    decreases s.len(),
{
    if s.len() > 0 && is_white(s.last()) {
        lemma_trim_back_last(s.drop_last());
    }
}

proof fn lemma_trim_back_keeps_head(s: Seq<char>)
    ensures
        trim_back(s).len() > 0 ==> trim_back(s)[0] == s[0],
    decreases s.len(),
{
    if s.len() > 0 && is_white(s.last()) {
        lemma_trim_back_keeps_head(s.drop_last());
    }
}


proof fn lemma_filter_all_kept(s: Seq<char>)
    ensures
        forall|i: int|
            0 <= i < filter_kept(s).len() ==> keeps_char(#[trigger] filter_kept(s)[i]),
    decreases s.len(),
{
    if s.len() > 0 {
        lemma_filter_all_kept(s.skip(1));
        let r = filter_kept(s);
        assert forall|i: int| 0 <= i < r.len() implies keeps_char(r[i]) by {
            if keeps_char(s[0]) {
                if i == 0 {
                    assert(r[0] == s[0]);
                } else {
                    assert(r[i] == filter_kept(s.skip(1))[i - 1]);
                }
            } else {
                assert(r[i] == filter_kept(s.skip(1))[i]);
            }
        }
    }
}

proof fn lemma_normalize_newlines_id(s: Seq<char>)
    requires
        forall|i: int| 0 <= i < s.len() ==> (#[trigger] s[i]) != '\r',
    ensures
        normalize_newlines(s) == s,
    decreases s.len(),
{
    if s.len() == 0 {
        assert(normalize_newlines(s) =~= s);
    } else {
        assert(forall|i: int| 0 <= i < s.skip(1).len() ==> (#[trigger] s.skip(1)[i]) != '\r');
        lemma_normalize_newlines_id(s.skip(1));
        assert(normalize_newlines(s) =~= s);
    }
}

proof fn lemma_unify_id(s: Seq<char>)
    requires
        forall|i: int| 0 <= i < s.len() ==> unified_char(#[trigger] s[i]),
    ensures
        unify_white(s) == s,
{
    assert(unify_white(s) =~= s);
}

proof fn lemma_filter_id(s: Seq<char>)
    requires
        forall|i: int| 0 <= i < s.len() ==> keeps_char(#[trigger] s[i]),
    ensures
        filter_kept(s) == s,
    decreases s.len(),
{
    if s.len() == 0 {
        assert(filter_kept(s) =~= s);
    } else {
        assert(forall|i: int| 0 <= i < s.skip(1).len() ==> keeps_char(#[trigger] s.skip(1)[i]));
        lemma_filter_id(s.skip(1));
        assert(filter_kept(s) =~= s);
    }
}

proof fn lemma_squeeze_spaces_id(s: Seq<char>)
    requires
        no_double_space(s),
    ensures
        squeeze_spaces(s) == s,
    decreases s.len(),
{
    if s.len() == 0 {
        assert(squeeze_spaces(s) =~= s);
    } else {
        assert(no_double_space(s.skip(1)));
        lemma_squeeze_spaces_id(s.skip(1));
        assert(!(s.len() >= 2 && s[0] == ' ' && s[1] == ' '));
        assert(squeeze_spaces(s) =~= s);
    }
}

proof fn lemma_squeeze_newlines_id(s: Seq<char>)
    requires
        no_triple_newline(s),
    ensures
        squeeze_newlines(s) == s,
    decreases s.len(),
{
    if s.len() == 0 {
        assert(squeeze_newlines(s) =~= s);
    } else {
        assert(no_triple_newline(s.skip(1)));
        lemma_squeeze_newlines_id(s.skip(1));
        assert(!(s.len() >= 3 && s[0] == '\n' && s[1] == '\n' && s[2] == '\n'));
        assert(squeeze_newlines(s) =~= s);
    }
}

proof fn lemma_trim_id(s: Seq<char>)
    requires
        trimmed(s),
    ensures
        trim_white(s) == s,
{
    assert(trim_front(s) == s);
    assert(trim_back(s) == s);
}

/// The shape the sanitizer guarantees of its output: only whitelisted
/// characters, whitespace reduced to spaces and line feeds, no run of two
/// spaces, no run of three line feeds, and clean ends.
pub proof fn lemma_sanitize_shape(s: Seq<char>)
    ensures
        forall|i: int|
            0 <= i < sanitize_spec(s).len() ==> keeps_char(#[trigger] sanitize_spec(s)[i]),
        forall|i: int|
            0 <= i < sanitize_spec(s).len() ==> unified_char(#[trigger] sanitize_spec(s)[i]),
        no_double_space(sanitize_spec(s)),
        no_triple_newline(sanitize_spec(s)),
        trimmed(sanitize_spec(s)),
{
    let u = unify_white(nfkc_of(normalize_newlines(s)));
    let f = filter_kept(u);
    let p = squeeze_spaces(f);
    let n = squeeze_newlines(p);
    let kept = |c: char| keeps_char(c);
    let uni = |c: char| unified_char(c);
    assert(forall|i: int| 0 <= i < u.len() ==> uni(#[trigger] u[i]));
    lemma_filter_all_kept(u);
    assert(forall|i: int| 0 <= i < f.len() ==> kept(#[trigger] f[i]));
    lemma_filter_pointwise(u, uni);
    lemma_squeeze_spaces_pointwise(f, kept);
    lemma_squeeze_spaces_pointwise(f, uni);
    lemma_squeeze_spaces_no_double(f);
    lemma_squeeze_newlines_pointwise(p, kept);
    lemma_squeeze_newlines_pointwise(p, uni);
    lemma_squeeze_newlines_keeps_no_double(p);
    lemma_squeeze_newlines_no_triple(p);
    lemma_trim_front_suffix(n);
    let n1 = trim_front(n);
    let k = choose|k: int| 0 <= k <= n.len() && trim_front(n) == n.skip(k);
    lemma_trim_back_prefix(n1);
    let t = sanitize_spec(s);
    let m = choose|m: int| 0 <= m <= n1.len() && trim_back(n1) == n1.take(m);
    assert(t == n1.take(m));
    assert(forall|i: int| 0 <= i < t.len() ==> t[i] == n[k + i]);
    assert forall|i: int| 0 <= i < t.len() implies keeps_char(#[trigger] t[i]) && unified_char(
        t[i],
    ) by {
        assert(t[i] == n[k + i]);
        assert(kept(n[k + i]) && uni(n[k + i]));
    }
    assert forall|i: int| 0 <= i && i + 1 < t.len() implies !((#[trigger] t[i]) == ' ' && t[i + 1]
        == ' ') by {
        assert(t[i] == n[k + i] && t[i + 1] == n[k + i + 1]);
    }
    assert forall|i: int| 0 <= i && i + 2 < t.len() implies !((#[trigger] t[i]) == '\n' && t[i + 1]
        == '\n' && t[i + 2] == '\n') by {
        assert(t[i] == n[k + i] && t[i + 1] == n[k + i + 1] && t[i + 2] == n[k + i + 2]);
    }
    lemma_trim_front_head(n);
    lemma_trim_back_keeps_head(n1);
    lemma_trim_back_last(n1);
}

/// Law: sanitized text contains only whitelisted characters — letters,
/// digits, separator space, the comma forms, the period forms and the line
/// feed.
pub proof fn lemma_sanitize_whitelist(s: Seq<char>)
    ensures
        forall|i: int|
            0 <= i < sanitize_spec(s).len() ==> keeps_char(#[trigger] sanitize_spec(s)[i]),
{
    lemma_sanitize_shape(s);
}

/// Law: sanitization is idempotent. The hypothesis asks that the sanitized
/// text be stable under compatibility normalization; deleting a character
/// can, in rare cases, bring two characters together that normalization then
/// composes, and on such inputs a second pass may differ.
pub proof fn lemma_sanitize_idempotent(s: Seq<char>)
    requires
        nfkc_of(sanitize_spec(s)) == sanitize_spec(s),
    ensures
        sanitize_spec(sanitize_spec(s)) == sanitize_spec(s),
{
    let t = sanitize_spec(s);
    lemma_sanitize_shape(s);
    assert forall|i: int| 0 <= i < t.len() implies (#[trigger] t[i]) != '\r' by {
        assert(unified_char(t[i]));
        assert(is_white('\r'));
    }
    lemma_normalize_newlines_id(t);
    lemma_unify_id(t);
    lemma_filter_id(t);
    lemma_squeeze_spaces_id(t);
    lemma_squeeze_newlines_id(t);
    lemma_trim_id(t);
}

} // verus!
