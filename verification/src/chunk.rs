//! Chunking of sanitized text into send units.
//!
//! If the sanitized text is no more than 100 UTF-8 code units long it is sent
//! as one chunk (possibly empty, when everything was filtered away).
//! Otherwise it is split on whitespace into its maximal non-whitespace runs,
//! each run becoming one chunk, in order, none empty.

use vstd::prelude::*;

use crate::chars::{char_is_white, char_utf8_width, chars_to_string, is_white, str_chars, utf8_width};
use crate::sanitize::{sanitize_spec, sanitize_text, squeeze_spaces, trim_back, trim_front, trim_white};

verus! {

/// Total UTF-8 byte length of a character sequence.
pub open spec fn utf8_len(s: Seq<char>) -> nat
    decreases s.len(),
{
    if s.len() == 0 {
        0
    } else {
        utf8_width(s[0]) + utf8_len(s.skip(1))
    }
}

/// The chunking threshold, in UTF-8 code units.
pub const CHUNK_LIMIT: u64 = 100;

/// Length of the leading run of non-whitespace characters.
pub open spec fn run_len(s: Seq<char>) -> nat
    decreases s.len(),
{
    if s.len() == 0 || is_white(s[0]) {
        0
    } else {
        1 + run_len(s.skip(1))
    }
}

/// A leading run never reaches past the end of the sequence.
pub proof fn lemma_run_len_le(s: Seq<char>)
    ensures
        run_len(s) <= s.len(),
    decreases s.len(),
{
    if s.len() > 0 && !is_white(s[0]) {
        lemma_run_len_le(s.skip(1));
    }
}

/// The maximal runs of non-whitespace characters, in order.
pub open spec fn tokens_of(s: Seq<char>) -> Seq<Seq<char>>
    decreases s.len(),
    via tokens_of_dec
{
    if s.len() == 0 {
        Seq::empty()
    } else if is_white(s[0]) {
        tokens_of(s.skip(1))
    } else {
        seq![s.take(run_len(s) as int)] + tokens_of(s.skip(run_len(s) as int))
    }
}

#[via_fn]
proof fn tokens_of_dec(s: Seq<char>) {
    if s.len() > 0 && !is_white(s[0]) {
        lemma_run_len_le(s);
    }
}

/// The views of a sequence of strings.
pub open spec fn views_of(rs: Seq<String>) -> Seq<Seq<char>> {
    Seq::new(rs.len(), |i: int| rs[i]@)
}

proof fn lemma_utf8_len_concat(a: Seq<char>, b: Seq<char>)
    ensures
        utf8_len(a + b) == utf8_len(a) + utf8_len(b),
    decreases a.len(),
{
    if a.len() == 0 {
        assert(a + b =~= b);
    } else {
        assert((a + b).skip(1) =~= a.skip(1) + b);
        lemma_utf8_len_concat(a.skip(1), b);
    }
}

proof fn lemma_utf8_len_singleton(c: char)
    ensures
        utf8_len(seq![c]) == utf8_width(c),
{
    assert(seq![c].skip(1) =~= Seq::<char>::empty());
    assert(utf8_len(Seq::<char>::empty()) == 0);
    assert(seq![c][0] == c);
}

proof fn lemma_utf8_len_step(s: Seq<char>, i: int)
    requires
        0 <= i < s.len(),
    ensures
        utf8_len(s.take(i + 1)) == utf8_len(s.take(i)) + utf8_width(s[i]),
{
    assert(s.take(i + 1) =~= s.take(i) + seq![s[i]]);
    lemma_utf8_len_concat(s.take(i), seq![s[i]]);
    lemma_utf8_len_singleton(s[i]);
}

fn utf8_len_over_limit(v: &Vec<char>) -> (b: bool)
    ensures
        b == (utf8_len(v@) > CHUNK_LIMIT),
{
    let mut sum: u64 = 0;
    let mut i: usize = 0;
    proof {
        assert(v@.take(0) =~= Seq::<char>::empty());
    }
    while i < v.len()
        invariant
            i <= v.len(),
            sum == utf8_len(v@.take(i as int)),
            sum <= CHUNK_LIMIT,
        decreases v.len() - i,
    {
        let w = char_utf8_width(v[i]) as u64;
        proof {
            lemma_utf8_len_step(v@, i as int);
        }
        if sum + w > CHUNK_LIMIT {
            proof {
                assert(v@ =~= v@.take(i + 1) + v@.skip(i + 1));
                lemma_utf8_len_concat(v@.take(i + 1), v@.skip(i + 1));
            }
            return true;
        }
        sum = sum + w;
        i = i + 1;
    }
    proof {
        assert(v@.take(v@.len() as int) =~= v@);
    }
    false
}

/// Characterization of [`run_len`] by its bounds: a run ends exactly at the
/// first whitespace character, or at the end of the sequence.
proof fn lemma_run_len_is(s: Seq<char>, r: int)
    requires
        0 <= r <= s.len(),
        forall|m: int| 0 <= m < r ==> !is_white(#[trigger] s[m]),
        r == s.len() || is_white(s[r]),
    ensures
        run_len(s) == r,
    decreases s.len(),
{
    if r == 0 {
    } else {
        assert(!is_white(s[0]));
        assert(forall|m: int| 0 <= m < r - 1 ==> s.skip(1)[m] == s[m + 1]);
        lemma_run_len_is(s.skip(1), r - 1);
    }
}

fn token_strings(v: &Vec<char>) -> (r: Vec<String>)
    ensures
        views_of(r@) == tokens_of(v@),
{
    let mut r: Vec<String> = Vec::new();
    let mut i: usize = 0;
    proof {
        assert(v@.skip(0) =~= v@);
        assert(views_of(r@) + tokens_of(v@) =~= tokens_of(v@));
    }
    while i < v.len()
        invariant
            i <= v.len(),
            tokens_of(v@) == views_of(r@) + tokens_of(v@.skip(i as int)),
        decreases v.len() - i,
    {
        if char_is_white(v[i]) {
            proof {
                assert(v@.skip(i as int).skip(1) =~= v@.skip(i + 1));
            }
            i = i + 1;
        } else {
            let ghost tail = v@.skip(i as int);
            let mut j: usize = i + 1;
            let mut tok: Vec<char> = Vec::new();
            tok.push(v[i]);
            proof {
                assert(tok@ =~= tail.take(1));
            }
            while j < v.len() && !char_is_white(v[j])
                invariant
                    i < j <= v.len(),
                    tail == v@.skip(i as int),
                    tok@ == tail.take(j - i as int),
                    forall|m: int| i <= m < j ==> !is_white(#[trigger] v@[m]),
                decreases v.len() - j,
            {
                tok.push(v[j]);
                proof {
                    assert(tail.take(j - i as int).push(v@[j as int]) =~= tail.take(
                        j + 1 - i as int,
                    ));
                }
                j = j + 1;
            }
            proof {
                assert(forall|m: int| 0 <= m < j - i ==> tail[m] == v@[m + i]);
                assert(j - i == tail.len() || is_white(tail[j - i as int]));
                lemma_run_len_is(tail, j - i as int);
                assert(tail.skip(j - i as int) =~= v@.skip(j as int));
            }
            let t = chars_to_string(&tok);
            r.push(t);
            proof {
                assert(views_of(r@) =~= views_of(r@.drop_last()).push(tok@));
                assert(views_of(r@.drop_last()) + (seq![tail.take(run_len(tail) as int)]
                    + tokens_of(v@.skip(j as int))) =~= views_of(r@) + tokens_of(
                    v@.skip(j as int),
                ));
            }
            i = j;
        }
    }
    proof {
        assert(v@.skip(v@.len() as int) =~= Seq::<char>::empty());
        assert(views_of(r@) + Seq::<Seq<char>>::empty() =~= views_of(r@));
    }
    r
}

/// Prepares raw client text for synthesis: sanitizes it, then either emits
/// it whole as a single chunk — possibly empty, when nothing survives the
/// whitelist — or, when it is longer than [`CHUNK_LIMIT`] UTF-8 code units,
/// splits it on whitespace into its maximal non-whitespace runs.
pub fn prepare(text: &str) -> (chunks: Vec<String>)
    ensures
        utf8_len(sanitize_spec(text@)) > CHUNK_LIMIT ==> views_of(chunks@) == tokens_of(
            sanitize_spec(text@),
        ),
        utf8_len(sanitize_spec(text@)) <= CHUNK_LIMIT ==> chunks@.len() == 1 && chunks@[0]@
            == sanitize_spec(text@),
{
    let t = sanitize_text(text);
    let v = str_chars(t.as_str());
    if utf8_len_over_limit(&v) {
        token_strings(&v)
    } else {
        let mut chunks: Vec<String> = Vec::new();
        chunks.push(t);
        chunks
    }
}


/// Whitespace canonicalization: every whitespace character becomes a plain
/// space.
pub open spec fn to_spaces(s: Seq<char>) -> Seq<char> {
    Seq::new(s.len(), |i: int| if is_white(s[i]) { ' ' } else { s[i] })
}

/// The canonical whitespace-collapsed form of a text: whitespace unified to
/// spaces, runs of spaces collapsed to one, ends trimmed.
pub open spec fn collapse_ws(s: Seq<char>) -> Seq<char> {
    trim_white(squeeze_spaces(to_spaces(s)))
}

/// Chunks joined by single spaces.
pub open spec fn join_spaces(ts: Seq<Seq<char>>) -> Seq<char>
    decreases ts.len(),
{
    if ts.len() == 0 {
        Seq::empty()
    } else if ts.len() == 1 {
        ts[0]
    } else {
        ts[0] + seq![' '] + join_spaces(ts.skip(1))
    }
}

/// The positions inside a leading run hold no whitespace, and the run ends
/// at the sequence's end or at a whitespace character.
proof fn lemma_run_len_props(s: Seq<char>)
    ensures
        forall|m: int| 0 <= m < run_len(s) ==> !is_white(#[trigger] s[m]),
        run_len(s) == s.len() || is_white(s[run_len(s) as int]),
    decreases s.len(),
{
    lemma_run_len_le(s);
    if s.len() > 0 && !is_white(s[0]) {
        lemma_run_len_props(s.skip(1));
        lemma_run_len_le(s.skip(1));
        assert forall|m: int| 0 <= m < run_len(s) implies !is_white(#[trigger] s[m]) by {
            if m > 0 {
                assert(s.skip(1)[m - 1] == s[m]);
            }
        }
        if run_len(s) < s.len() {
            assert(s.skip(1)[run_len(s) - 1] == s[run_len(s) as int]);
        }
    }
}

proof fn lemma_tokens_all_white(s: Seq<char>)
    requires
        forall|i: int| 0 <= i < s.len() ==> is_white(#[trigger] s[i]),
    ensures
        tokens_of(s).len() == 0,
    decreases s.len(),
{
    if s.len() > 0 {
        assert(forall|i: int| 0 <= i < s.skip(1).len() ==> is_white(#[trigger] s.skip(1)[i]));
        lemma_tokens_all_white(s.skip(1));
    }
}

proof fn lemma_tokens_exist(s: Seq<char>)
    requires
        exists|m: int| 0 <= m < s.len() && !is_white(s[m]),
    ensures
        tokens_of(s).len() > 0,
    decreases s.len(),
{
    let m = choose|m: int| 0 <= m < s.len() && !is_white(s[m]);
    if is_white(s[0]) {
        assert(s.skip(1)[m - 1] == s[m]);
        lemma_tokens_exist(s.skip(1));
    }
}

/// Law: no emitted chunk is empty when the text is split on whitespace.
pub proof fn lemma_tokens_nonempty(s: Seq<char>)
    ensures
        forall|i: int| 0 <= i < tokens_of(s).len() ==> (#[trigger] tokens_of(s)[i]).len() > 0,
    decreases s.len(),
{
    if s.len() == 0 {
    } else if is_white(s[0]) {
        lemma_tokens_nonempty(s.skip(1));
        assert forall|i: int| 0 <= i < tokens_of(s).len() implies (#[trigger] tokens_of(s)[i]).len()
            > 0 by {
            assert(tokens_of(s)[i] == tokens_of(s.skip(1))[i]);
        }
    } else {
        let k = run_len(s) as int;
        lemma_run_len_le(s);
        lemma_tokens_nonempty(s.skip(k));
        let ts = tokens_of(s);
        assert forall|i: int| 0 <= i < ts.len() implies (#[trigger] ts[i]).len() > 0 by {
            if i == 0 {
                assert(ts[0] == s.take(k));
            } else {
                assert(ts[i] == tokens_of(s.skip(k))[i - 1]);
            }
        }
    }
}

proof fn lemma_trim_front_all_white(s: Seq<char>)
    requires
        forall|i: int| 0 <= i < s.len() ==> is_white(#[trigger] s[i]),
    ensures
        trim_front(s).len() == 0,
    decreases s.len(),
{
    if s.len() > 0 {
        assert(forall|i: int| 0 <= i < s.skip(1).len() ==> is_white(#[trigger] s.skip(1)[i]));
        lemma_trim_front_all_white(s.skip(1));
    }
}

proof fn lemma_trim_back_all_white(s: Seq<char>)
    requires
        forall|i: int| 0 <= i < s.len() ==> is_white(#[trigger] s[i]),
    ensures
        trim_back(s).len() == 0,
    decreases s.len(),
{
    if s.len() > 0 {
        assert(forall|i: int| 0 <= i < s.drop_last().len() ==> is_white(
            #[trigger] s.drop_last()[i],
        ));
        lemma_trim_back_all_white(s.drop_last());
    }
}

proof fn lemma_trim_back_head(s: Seq<char>)
    requires
        s.len() > 0,
        !is_white(s[0]),
    ensures
        trim_back(s).len() > 0,
    decreases s.len(),
{
    if is_white(s.last()) {
        lemma_trim_back_head(s.drop_last());
    }
}

proof fn lemma_trim_back_concat_nonwhite(a: Seq<char>, y: Seq<char>)
    requires
        forall|i: int| 0 <= i < a.len() ==> !is_white(#[trigger] a[i]),
    ensures
        trim_back(a + y) == a + trim_back(y),
    decreases y.len(),
{
    if y.len() == 0 {
        assert(a + y =~= a);
        assert(a + trim_back(y) =~= a);
        if a.len() > 0 {
            assert(!is_white(a.last()));
        }
    } else if is_white(y.last()) {
        assert((a + y).last() == y.last());
        assert((a + y).drop_last() =~= a + y.drop_last());
        lemma_trim_back_concat_nonwhite(a, y.drop_last());
    } else {
        assert((a + y).last() == y.last());
    }
}

proof fn lemma_trim_back_concat_keep(a: Seq<char>, y: Seq<char>)
    requires
        trim_back(y).len() > 0,
    ensures
        trim_back(a + y) == a + trim_back(y),
    decreases y.len(),
{
    if y.len() == 0 {
    } else if is_white(y.last()) {
        assert((a + y).last() == y.last());
        assert((a + y).drop_last() =~= a + y.drop_last());
        lemma_trim_back_concat_keep(a, y.drop_last());
    } else {
        assert((a + y).last() == y.last());
    }
}

proof fn lemma_squeeze_nonspace_prefix(a: Seq<char>, x: Seq<char>)
    requires
        forall|i: int| 0 <= i < a.len() ==> (#[trigger] a[i]) != ' ',
    ensures
        squeeze_spaces(a + x) == a + squeeze_spaces(x),
    decreases a.len(),
{
    if a.len() == 0 {
        assert(a + x =~= x);
        assert(a + squeeze_spaces(x) =~= squeeze_spaces(x));
    } else {
        assert((a + x)[0] == a[0]);
        assert((a + x).skip(1) =~= a.skip(1) + x);
        assert(forall|i: int| 0 <= i < a.skip(1).len() ==> (#[trigger] a.skip(1)[i]) != ' ');
        lemma_squeeze_nonspace_prefix(a.skip(1), x);
        assert(squeeze_spaces(a + x) =~= a + squeeze_spaces(x));
    }
}

proof fn lemma_squeeze_keeps_nonspace(x: Seq<char>)
    requires
        exists|m: int| 0 <= m < x.len() && x[m] != ' ',
    ensures
        exists|p: int| 0 <= p < squeeze_spaces(x).len() && squeeze_spaces(x)[p] != ' ',
    decreases x.len(),
{
    let m = choose|m: int| 0 <= m < x.len() && x[m] != ' ';
    if x.len() >= 2 && x[0] == ' ' && x[1] == ' ' {
        assert(x.skip(1)[m - 1] == x[m]);
        lemma_squeeze_keeps_nonspace(x.skip(1));
        let p = choose|p: int|
            0 <= p < squeeze_spaces(x.skip(1)).len() && squeeze_spaces(x.skip(1))[p] != ' ';
        assert(0 <= p < squeeze_spaces(x).len() && squeeze_spaces(x)[p] != ' ');
    } else if x[0] != ' ' {
        assert(squeeze_spaces(x) == seq![x[0]] + squeeze_spaces(x.skip(1)));
        assert(0 <= 0 < squeeze_spaces(x).len() && squeeze_spaces(x)[0] != ' ');
    } else {
        assert(x.skip(1)[m - 1] == x[m]);
        lemma_squeeze_keeps_nonspace(x.skip(1));
        let p = choose|p: int|
            0 <= p < squeeze_spaces(x.skip(1)).len() && squeeze_spaces(x.skip(1))[p] != ' ';
        assert(squeeze_spaces(x) == seq![x[0]] + squeeze_spaces(x.skip(1)));
        assert(squeeze_spaces(x)[p + 1] == squeeze_spaces(x.skip(1))[p]);
        assert(0 <= p + 1 < squeeze_spaces(x).len() && squeeze_spaces(x)[p + 1] != ' ');
    }
}

/// Law: the chunks of a text, joined by single spaces, are exactly the text
/// with its whitespace unified to spaces, runs of whitespace collapsed to a
/// single space, and the ends trimmed.
pub proof fn lemma_join_tokens(s: Seq<char>)
    ensures
        join_spaces(tokens_of(s)) == collapse_ws(s),
    decreases s.len(),
{
    if s.len() == 0 {
        assert(to_spaces(s) =~= Seq::<char>::empty());
    } else if is_white(s[0]) {
        lemma_join_tokens(s.skip(1));
        let x = to_spaces(s.skip(1));
        assert(to_spaces(s) =~= seq![' '] + x);
        let w = seq![' '] + x;
        assert(w[0] == ' ');
        assert(w.skip(1) =~= x);
        if x.len() > 0 && x[0] == ' ' {
            assert(w[1] == x[0]);
            assert(squeeze_spaces(w) == squeeze_spaces(x));
        } else {
            assert(squeeze_spaces(w) == seq![' '] + squeeze_spaces(x));
            assert((seq![' '] + squeeze_spaces(x)).skip(1) =~= squeeze_spaces(x));
            assert(trim_front(squeeze_spaces(w)) == trim_front(squeeze_spaces(x)));
        }
    } else {
        let k = run_len(s) as int;
        lemma_run_len_le(s);
        lemma_run_len_props(s);
        let a = s.take(k);
        let rest = s.skip(k);
        lemma_join_tokens(rest);
        assert(forall|i: int| 0 <= i < a.len() ==> !is_white(#[trigger] a[i]));
        assert forall|i: int| 0 <= i < a.len() implies (#[trigger] a[i]) != ' ' by {
            assert(is_white(' '));
        }
        let x = to_spaces(rest);
        assert(to_spaces(s) =~= a + x);
        lemma_squeeze_nonspace_prefix(a, x);
        let z = squeeze_spaces(x);
        // the leading token passes through untouched
        if a.len() > 0 {
            assert((a + z)[0] == a[0]);
            assert(trim_front(a + z) == a + z);
        }
        lemma_trim_back_concat_nonwhite(a, z);
        assert(collapse_ws(s) == a + trim_back(z));
        if exists|m: int| 0 <= m < rest.len() && !is_white(rest[m]) {
            let m = choose|m: int| 0 <= m < rest.len() && !is_white(rest[m]);
            lemma_tokens_exist(rest);
            // rest starts with whitespace, so z starts with a space
            assert(is_white(rest[0]));
            assert(x[0] == ' ');
            crate::sanitize::lemma_squeeze_spaces_heads(x);
            assert(z[0] == ' ');
            // after that space comes a non-whitespace character
            assert(x[m] != ' ' && 0 <= m < x.len());
            lemma_squeeze_keeps_nonspace(x);
            let p = choose|p: int| 0 <= p < z.len() && z[p] != ' ';
            assert(p >= 1);
            let rest2 = z.skip(1);
            assert(z =~= seq![' '] + rest2);
            crate::sanitize::lemma_squeeze_spaces_no_double(x);
            assert(!(z[0] == ' ' && z[1] == ' '));
            assert(rest2[0] == z[1]);
            crate::sanitize::lemma_squeeze_spaces_pointwise(x, |c: char| !is_white(c) || c == ' ');
            assert(!is_white(rest2[0]));
            // trimming the collapsed tail from the front drops exactly that space
            assert(trim_front(z) == trim_front(rest2));
            assert(trim_front(rest2) == rest2);
            assert(collapse_ws(rest) == trim_back(rest2));
            lemma_trim_back_head(rest2);
            lemma_trim_back_concat_keep(seq![' '], rest2);
            assert(trim_back(z) == seq![' '] + trim_back(rest2));
            assert(collapse_ws(s) == a + (seq![' '] + collapse_ws(rest)));
            // and the chunk side joins with exactly one space
            let ts = tokens_of(s);
            assert(ts == seq![a] + tokens_of(rest));
            assert(ts.len() >= 2);
            assert(ts[0] == a);
            assert(ts.skip(1) =~= tokens_of(rest));
            assert(join_spaces(ts) == a + seq![' '] + join_spaces(tokens_of(rest)));
            assert(a + seq![' '] + collapse_ws(rest) =~= a + (seq![' '] + collapse_ws(rest)));
        } else {
            assert(forall|i: int| 0 <= i < rest.len() ==> is_white(#[trigger] rest[i]));
            lemma_tokens_all_white(rest);
            assert forall|i: int| 0 <= i < x.len() implies (#[trigger] x[i]) == ' ' by {
                assert(is_white(rest[i]));
            }
            crate::sanitize::lemma_squeeze_spaces_pointwise(x, |c: char| c == ' ');
            assert forall|i: int| 0 <= i < z.len() implies is_white(#[trigger] z[i]) by {
                assert((|c: char| c == ' ')(z[i]));
                assert(is_white(' '));
            }
            lemma_trim_back_all_white(z);
            assert(collapse_ws(s) =~= a);
            let ts = tokens_of(s);
            assert(ts =~= seq![a]);
            assert(join_spaces(ts) == a);
        }
    }
}

} // verus!
