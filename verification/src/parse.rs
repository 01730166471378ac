//! Parsing of the bracketed number lists that submissions carry: Miden
//! stack fields such as `"[1, 2, 3]"` and RISC Zero image ids such as
//! `"[101, 102, ..]"`.

use vstd::prelude::*;

use crate::digits::parse_u64_or_zero;
use crate::digits::spec_parse_u64_or_zero;
use crate::digits::spec_try_parse_u64;
use crate::digits::try_parse_u64;
use crate::errors::VerificationError;

verus! {

/// Whether `c` is one of the list brackets that enclose a number list.
pub open spec fn is_bracket_char(c: char) -> bool {
    c == '[' || c == ']'
}

/// Whether `c` is whitespace, in the sense list-element trimming uses: the
/// Unicode white-space characters.
pub open spec fn is_space_char(c: char) -> bool {
    c == ' ' || ('\u{9}' <= c && c <= '\u{D}') || c == '\u{85}' || c == '\u{A0}'
        || c == '\u{1680}' || ('\u{2000}' <= c && c <= '\u{200A}') || c == '\u{2028}'
        || c == '\u{2029}' || c == '\u{202F}' || c == '\u{205F}' || c == '\u{3000}'
}

/// Whether `c` is whitespace.
fn is_space(c: char) -> (r: bool)
    ensures
        r == is_space_char(c),
{
    c == ' ' || ('\u{9}' <= c && c <= '\u{D}') || c == '\u{85}' || c == '\u{A0}'
        || c == '\u{1680}' || ('\u{2000}' <= c && c <= '\u{200A}') || c == '\u{2028}'
        || c == '\u{2029}' || c == '\u{202F}' || c == '\u{205F}' || c == '\u{3000}'
}

/// The bracket predicate as a value, so that every mention is one term.
pub open spec fn bracket_pred() -> spec_fn(char) -> bool {
    |c: char| is_bracket_char(c)
}

/// The blank-space predicate as a value.
pub open spec fn space_pred() -> spec_fn(char) -> bool {
    |c: char| is_space_char(c)
}

/// `s` without its longest prefix of characters satisfying `p`.
pub open spec fn trim_leading(s: Seq<char>, p: spec_fn(char) -> bool) -> Seq<char>
    decreases s.len(),
{
    if s.len() > 0 && p(s[0]) {
        trim_leading(s.drop_first(), p)
    } else {
        s
    }
}

/// `s` without its longest suffix of characters satisfying `p`.
pub open spec fn trim_trailing(s: Seq<char>, p: spec_fn(char) -> bool) -> Seq<char>
    decreases s.len(),
{
    if s.len() > 0 && p(s.last()) {
        trim_trailing(s.drop_last(), p)
    } else {
        s
    }
}

/// `s` without leading and trailing characters satisfying `p`.
pub open spec fn trimmed(s: Seq<char>, p: spec_fn(char) -> bool) -> Seq<char> {
    trim_trailing(trim_leading(s, p), p)
}

/// The comma-separated pieces of `s`: one more piece than there are commas,
/// in order, each without its surrounding commas. The empty string has one
/// empty piece.
pub open spec fn split_commas(s: Seq<char>) -> Seq<Seq<char>>
    decreases s.len(),
{
    if s.len() == 0 {
        seq![Seq::<char>::empty()]
    } else {
        let rest = split_commas(s.drop_first());
        if s[0] == ',' {
            seq![Seq::<char>::empty()] + rest
        } else {
            seq![seq![s[0]] + rest[0]] + rest.skip(1)
        }
    }
}

/// Splitting yields at least one piece.
pub proof fn lemma_split_commas_len(s: Seq<char>)
    ensures
        split_commas(s).len() >= 1,
    decreases s.len(),
{
    if s.len() > 0 {
        lemma_split_commas_len(s.drop_first());
    }
}

/// Dropping a satisfied prefix of length `a` is what `trim_leading` does.
proof fn lemma_trim_leading_skip(s: Seq<char>, p: spec_fn(char) -> bool, a: int)
    requires
        0 <= a <= s.len(),
        forall|j: int| 0 <= j < a ==> p(s[j]),
        a == s.len() || !p(s[a]),
    ensures
        trim_leading(s, p) == s.skip(a),
    decreases a,
{
    if a == 0 {
        assert(s.skip(0) =~= s);
    } else {
        let t = s.drop_first();
        assert(p(s[0]));
        assert forall|j: int| 0 <= j < a - 1 implies p(t[j]) by {
            assert(t[j] == s[j + 1]);
        }
        if a - 1 < t.len() {
            assert(t[a - 1] == s[a]);
        }
        lemma_trim_leading_skip(t, p, a - 1);
        assert(t.skip(a - 1) =~= s.skip(a));
    }
}

/// Keeping only the first `b` characters is what `trim_trailing` does when
/// everything after them is satisfied.
proof fn lemma_trim_trailing_take(s: Seq<char>, p: spec_fn(char) -> bool, b: int)
    requires
        0 <= b <= s.len(),
        forall|j: int| b <= j < s.len() ==> p(s[j]),
        b == 0 || !p(s[b - 1]),
    ensures
        trim_trailing(s, p) == s.take(b),
    decreases s.len(),
{
    if b == s.len() {
        if s.len() > 0 {
            assert(s.last() == s[b - 1]);
        }
        assert(s.take(b) =~= s);
    } else {
        assert(p(s.last()));
        let t = s.drop_last();
        assert forall|j: int| b <= j < t.len() implies p(t[j]) by {
            assert(t[j] == s[j]);
        }
        if b > 0 {
            assert(t[b - 1] == s[b - 1]);
        }
        lemma_trim_trailing_take(t, p, b);
        assert(t.take(b) =~= s.take(b));
    }
}

/// The characters of `s`, in order.
pub fn chars_of(s: &str) -> (r: Vec<char>)
    ensures
        r@ == s@,
{
    let mut r: Vec<char> = Vec::new();
    for c in it: s.chars()
        invariant
            it.seq() == s@,
            r@ == s@.take(it.index()),
    {
        let ghost idx = it.index();
        r.push(c);
        proof {
            assert(s@.take(idx + 1) =~= s@.take(idx).push(s@[idx]));
        }
    }
    proof {
        assert(r@ =~= s@);
    }
    r
}

/// The characters of `v` from `a` up to `b`.
fn copy_range(v: &Vec<char>, a: usize, b: usize) -> (r: Vec<char>)
    requires
        a <= b <= v@.len(),
    ensures
        r@ == v@.subrange(a as int, b as int),
{
    let mut r: Vec<char> = Vec::new();
    let mut i: usize = a;
    while i < b
        invariant
            a <= i <= b <= v@.len(),
            r@ == v@.subrange(a as int, i as int),
        decreases b - i,
    {
        r.push(v[i]);
        proof {
            assert(v@.subrange(a as int, i + 1 as int) =~= v@.subrange(a as int, i as int).push(
                v@[i as int],
            ));
        }
        i += 1;
    }
    r
}

/// `v` without leading and trailing list brackets.
fn trim_brackets(v: &Vec<char>) -> (r: Vec<char>)
    ensures
        r@ == trimmed(v@, bracket_pred()),
{
    let n = v.len();
    let mut a: usize = 0;
    while a < n && (v[a] == '[' || v[a] == ']')
        invariant
            a <= n,
            n == v@.len(),
            forall|j: int| 0 <= j < a ==> is_bracket_char(v@[j]),
        decreases n - a,
    {
        a += 1;
    }
    let mut b: usize = n;
    while b > a && (v[b - 1] == '[' || v[b - 1] == ']')
        invariant
            a <= b <= n,
            n == v@.len(),
            forall|j: int| b <= j < n ==> is_bracket_char(v@[j]),
        decreases b,
    {
        b -= 1;
    }
    proof {
        lemma_trim_leading_skip(v@, bracket_pred(), a as int);
        let t = v@.skip(a as int);
        assert forall|j: int| b - a <= j < t.len() implies bracket_pred()(t[j]) by {
            assert(t[j] == v@[a + j]);
        }
        if b > a {
            assert(t[b - a - 1] == v@[b - 1 as int]);
        }
        lemma_trim_trailing_take(t, bracket_pred(), b - a as int);
        assert(t.take(b - a as int) =~= v@.subrange(a as int, b as int));
    }
    copy_range(v, a, b)
}

/// `v` without leading and trailing blank space.
fn trim_spaces(v: &Vec<char>) -> (r: Vec<char>)
    ensures
        r@ == trimmed(v@, space_pred()),
{
    let n = v.len();
    let mut a: usize = 0;
    while a < n && is_space(v[a])
        invariant
            a <= n,
            n == v@.len(),
            forall|j: int| 0 <= j < a ==> is_space_char(v@[j]),
        decreases n - a,
    {
        a += 1;
    }
    let mut b: usize = n;
    while b > a && is_space(v[b - 1])
        invariant
            a <= b <= n,
            n == v@.len(),
            forall|j: int| b <= j < n ==> is_space_char(v@[j]),
        decreases b,
    {
        b -= 1;
    }
    proof {
        lemma_trim_leading_skip(v@, space_pred(), a as int);
        let t = v@.skip(a as int);
        assert forall|j: int| b - a <= j < t.len() implies space_pred()(t[j]) by {
            assert(t[j] == v@[a + j]);
        }
        if b > a {
            assert(t[b - a - 1] == v@[b - 1 as int]);
        }
        lemma_trim_trailing_take(t, space_pred(), b - a as int);
        assert(t.take(b - a as int) =~= v@.subrange(a as int, b as int));
    }
    copy_range(v, a, b)
}

/// The views of a list of character vectors.
pub open spec fn views_of(ps: Seq<Vec<char>>) -> Seq<Seq<char>> {
    ps.map_values(|pc: Vec<char>| pc@)
}

/// Splits `v` at its commas.
fn split_pieces(v: &Vec<char>) -> (r: Vec<Vec<char>>)
    ensures
        views_of(r@) == split_commas(v@),
{
    let n = v.len();
    let mut pieces: Vec<Vec<char>> = Vec::new();
    let mut cur: Vec<char> = Vec::new();
    let mut i: usize = 0;
    proof {
        lemma_split_commas_len(v@);
        assert(v@.skip(0) =~= v@);
        assert(views_of(pieces@) =~= Seq::<Seq<char>>::empty());
        assert(cur@ + split_commas(v@)[0] =~= split_commas(v@)[0]);
        assert(Seq::<Seq<char>>::empty() + seq![split_commas(v@)[0]] + split_commas(v@).skip(1)
            =~= split_commas(v@));
    }
    while i < n
        invariant
            i <= n,
            n == v@.len(),
            split_commas(v@) == views_of(pieces@) + seq![cur@ + split_commas(v@.skip(i as int))[0]]
                + split_commas(v@.skip(i as int)).skip(1),
        decreases n - i,
    {
        let ghost rest = split_commas(v@.skip(i + 1 as int));
        proof {
            lemma_split_commas_len(v@.skip(i + 1 as int));
            assert(v@.skip(i as int).len() > 0);
            assert(v@.skip(i as int)[0] == v@[i as int]);
            assert(v@.skip(i as int).drop_first() =~= v@.skip(i + 1 as int));
        }
        let c = v[i];
        if c == ',' {
            proof {
                assert(split_commas(v@.skip(i as int)) =~= seq![Seq::<char>::empty()] + rest);
                assert((seq![Seq::<char>::empty()] + rest).skip(1) =~= rest);
                assert(cur@ + Seq::<char>::empty() =~= cur@);
                assert(rest =~= seq![rest[0]] + rest.skip(1));
                assert(views_of(pieces@.push(cur)) =~= views_of(pieces@).push(cur@));
                assert(views_of(pieces@.push(cur)) + seq![Seq::<char>::empty() + rest[0]]
                    + rest.skip(1) =~= views_of(pieces@) + seq![cur@ + (seq![
                    Seq::<char>::empty(),
                ] + rest)[0]] + (seq![Seq::<char>::empty()] + rest).skip(1));
                assert(Seq::<char>::empty() + rest[0] =~= rest[0]);
            }
            pieces.push(cur);
            cur = Vec::new();
        } else {
            proof {
                let shead = seq![v@[i as int]] + rest[0];
                assert(split_commas(v@.skip(i as int)) =~= seq![shead] + rest.skip(1));
                assert((seq![shead] + rest.skip(1)).skip(1) =~= rest.skip(1));
                assert((seq![shead] + rest.skip(1))[0] == shead);
                assert(cur@ + shead =~= cur@.push(v@[i as int]) + rest[0]);
            }
            cur.push(c);
        }
        i += 1;
    }
    proof {
        assert(v@.skip(n as int) =~= Seq::<char>::empty());
        assert(split_commas(Seq::<char>::empty()) =~= seq![Seq::<char>::empty()]);
        assert(cur@ + Seq::<char>::empty() =~= cur@);
        assert(seq![Seq::<char>::empty()].skip(1) =~= Seq::<Seq<char>>::empty());
        assert(views_of(pieces@.push(cur)) =~= views_of(pieces@).push(cur@));
        assert(views_of(pieces@) + seq![cur@] + Seq::<Seq<char>>::empty() =~= views_of(
            pieces@,
        ).push(cur@));
    }
    pieces.push(cur);
    pieces
}

/// What parsing a bracketed number list yields: each comma-separated piece,
/// stripped of blank space, read as a number, with zero for every malformed
/// piece.
pub open spec fn spec_string_to_u64_vec(s: Seq<char>) -> Seq<u64> {
    split_commas(trimmed(s, bracket_pred())).map_values(
        |p: Seq<char>| spec_parse_u64_or_zero(trimmed(p, space_pred())),
    )
}

/// Reads a bracketed number list such as `"[1, 2, 3]"`. Every malformed
/// element becomes zero rather than an error, so the call always succeeds
/// with one value per comma-separated piece.
pub fn string_to_u64_vec(s: &str) -> (r: Result<Vec<u64>, VerificationError>)
    ensures
        r matches Ok(v) && v@ == spec_string_to_u64_vec(s@),
{
    let chars = chars_of(s);
    let body = trim_brackets(&chars);
    let pieces = split_pieces(&body);
    let ghost target = spec_string_to_u64_vec(s@);
    proof {
        assert(views_of(pieces@) == split_commas(trimmed(s@, bracket_pred())));
        assert(target.len() == views_of(pieces@).len());
    }
    let mut result: Vec<u64> = Vec::new();
    let n = pieces.len();
    let mut i: usize = 0;
    while i < n
        invariant
            i <= n,
            n == pieces@.len(),
            target.len() == n,
            forall|j: int|
                0 <= j < n ==> target[j] == spec_parse_u64_or_zero(
                    trimmed(pieces@[j]@, space_pred()),
                ),
            result@ == target.take(i as int),
        decreases n - i,
    {
        let t = trim_spaces(&pieces[i]);
        let value = parse_u64_or_zero(&t);
        result.push(value);
        proof {
            assert(target.take(i + 1 as int) =~= target.take(i as int).push(target[i as int]));
        }
        i += 1;
    }
    proof {
        assert(result@ =~= target);
    }
    Ok(result)
}

/// The pieces of `s` separated by the exact two-character separator `", "`,
/// matched greedily left to right: one more piece than there are
/// separators, in order. A bare comma separates nothing and stays inside
/// its piece.
pub open spec fn split_comma_space(s: Seq<char>) -> Seq<Seq<char>>
    decreases s.len(),
{
    if s.len() >= 2 && s[0] == ',' && s[1] == ' ' {
        seq![Seq::<char>::empty()] + split_comma_space(s.skip(2))
    } else if s.len() == 0 {
        seq![Seq::<char>::empty()]
    } else {
        let rest = split_comma_space(s.drop_first());
        seq![seq![s[0]] + rest[0]] + rest.skip(1)
    }
}

/// Splitting on the separator yields at least one piece.
pub proof fn lemma_split_comma_space_len(s: Seq<char>)
    ensures
        split_comma_space(s).len() >= 1,
    decreases s.len(),
{
    if s.len() >= 2 && s[0] == ',' && s[1] == ' ' {
        lemma_split_comma_space_len(s.skip(2));
    } else if s.len() > 0 {
        lemma_split_comma_space_len(s.drop_first());
    }
}

/// Splits `v` at each occurrence of the two-character separator `", "`.
fn split_comma_space_pieces(v: &Vec<char>) -> (r: Vec<Vec<char>>)
    ensures
        views_of(r@) == split_comma_space(v@),
{
    let n = v.len();
    let mut pieces: Vec<Vec<char>> = Vec::new();
    let mut cur: Vec<char> = Vec::new();
    let mut i: usize = 0;
    proof {
        lemma_split_comma_space_len(v@);
        assert(v@.skip(0) =~= v@);
        assert(views_of(pieces@) =~= Seq::<Seq<char>>::empty());
        assert(cur@ + split_comma_space(v@)[0] =~= split_comma_space(v@)[0]);
        assert(Seq::<Seq<char>>::empty() + seq![split_comma_space(v@)[0]] + split_comma_space(
            v@,
        ).skip(1) =~= split_comma_space(v@));
    }
    while i < n
        invariant
            i <= n,
            n == v@.len(),
            split_comma_space(v@) == views_of(pieces@) + seq![cur@ + split_comma_space(
                v@.skip(i as int),
            )[0]] + split_comma_space(v@.skip(i as int)).skip(1),
        decreases n - i,
    {
        proof {
            assert(v@.skip(i as int).len() > 0);
            assert(v@.skip(i as int)[0] == v@[i as int]);
        }
        if v[i] == ',' && i + 1 < n && v[i + 1] == ' ' {
            let ghost rest = split_comma_space(v@.skip(i + 2 as int));
            proof {
                lemma_split_comma_space_len(v@.skip(i + 2 as int));
                assert(v@.skip(i as int)[1] == v@[i + 1 as int]);
                assert(v@.skip(i as int).skip(2) =~= v@.skip(i + 2 as int));
                assert(split_comma_space(v@.skip(i as int)) =~= seq![Seq::<char>::empty()]
                    + rest);
                assert((seq![Seq::<char>::empty()] + rest).skip(1) =~= rest);
                assert(cur@ + Seq::<char>::empty() =~= cur@);
                assert(rest =~= seq![rest[0]] + rest.skip(1));
                assert(views_of(pieces@.push(cur)) =~= views_of(pieces@).push(cur@));
                assert(Seq::<char>::empty() + rest[0] =~= rest[0]);
            }
            pieces.push(cur);
            cur = Vec::new();
            i += 2;
        } else {
            let ghost rest = split_comma_space(v@.skip(i + 1 as int));
            proof {
                lemma_split_comma_space_len(v@.skip(i + 1 as int));
                if i + 1 < n {
                    assert(v@.skip(i as int)[1] == v@[i + 1 as int]);
                }
                assert(v@.skip(i as int).drop_first() =~= v@.skip(i + 1 as int));
                let shead = seq![v@[i as int]] + rest[0];
                assert(split_comma_space(v@.skip(i as int)) =~= seq![shead] + rest.skip(1));
                assert((seq![shead] + rest.skip(1)).skip(1) =~= rest.skip(1));
                assert(cur@ + shead =~= cur@.push(v@[i as int]) + rest[0]);
            }
            cur.push(v[i]);
            i += 1;
        }
    }
    proof {
        assert(v@.skip(n as int) =~= Seq::<char>::empty());
        assert(split_comma_space(Seq::<char>::empty()) =~= seq![Seq::<char>::empty()]);
        assert(cur@ + Seq::<char>::empty() =~= cur@);
        assert(seq![Seq::<char>::empty()].skip(1) =~= Seq::<Seq<char>>::empty());
        assert(views_of(pieces@.push(cur)) =~= views_of(pieces@).push(cur@));
        assert(views_of(pieces@) + seq![cur@] + Seq::<Seq<char>>::empty() =~= views_of(
            pieces@,
        ).push(cur@));
    }
    pieces.push(cur);
    pieces
}

/// What parsing one image-id element yields: the value of the digit string
/// when it fits a `u32`, nothing otherwise.
pub open spec fn spec_try_parse_u32(s: Seq<char>) -> Option<u32> {
    match spec_try_parse_u64(s) {
        Some(v) => if v <= u32::MAX as u64 {
            Some(v as u32)
        } else {
            None
        },
        None => None,
    }
}

/// The segments of a bracketed image id: brackets trimmed, then split on
/// the exact separator `", "`. No other blank-stripping happens: an element
/// set off by a bare comma keeps it and fails the number parse, as the
/// image-id format demands.
pub open spec fn spec_image_id_segments(s: Seq<char>) -> Seq<Seq<char>> {
    split_comma_space(trimmed(s, bracket_pred()))
}

/// Reads a RISC Zero image id: a bracketed list of exactly eight numbers
/// separated by `", "`, each fitting a `u32`. A list of any other length —
/// a bare-comma list is one segment, not eight — and any segment that is
/// not a `u32` number is rejected as an invalid image id.
pub fn parse_risc0_image_id(image_id_str: &str) -> (r: Result<Vec<u32>, VerificationError>)
    ensures
        ({
            let ps = spec_image_id_segments(image_id_str@);
            &&& (r matches Ok(v)) <==> ps.len() == 8 && (forall|j: int|
                0 <= j < 8 ==> spec_try_parse_u32(ps[j]) is Some)
            &&& (r matches Ok(v) ==> v@.len() == 8 && (forall|j: int|
                0 <= j < 8 ==> spec_try_parse_u32(ps[j]) == Some(v@[j])))
            &&& (r matches Err(e) ==> e matches VerificationError::InvalidImageID(_))
        }),
{
    let chars = chars_of(image_id_str);
    let body = trim_brackets(&chars);
    let pieces = split_comma_space_pieces(&body);
    let ghost ps = spec_image_id_segments(image_id_str@);
    proof {
        assert(views_of(pieces@) == split_comma_space(trimmed(image_id_str@, bracket_pred())));
        assert(ps.len() == views_of(pieces@).len());
    }
    let n = pieces.len();
    if n != 8 {
        return Err(VerificationError::InvalidImageID("Invalid image ID length".to_owned()));
    }
    let mut out: Vec<u32> = Vec::new();
    let mut i: usize = 0;
    while i < n
        invariant
            ps == spec_image_id_segments(image_id_str@),
            i <= n,
            n == 8,
            n == pieces@.len(),
            ps.len() == n,
            forall|j: int| 0 <= j < n ==> ps[j] == pieces@[j]@,
            out@.len() == i,
            forall|j: int| 0 <= j < i ==> spec_try_parse_u32(ps[j]) == Some(out@[j]),
        decreases n - i,
    {
        let value = match try_parse_u64(&pieces[i]) {
            Some(v) => v,
            None => {
                proof {
                    assert(spec_try_parse_u32(ps[i as int]) is None);
                    assert(exists|j: int|
                        0 <= j < 8 && !(#[trigger] spec_try_parse_u32(ps[j]) is Some));
                }
                return Err(VerificationError::InvalidImageID(
                    "Invalid image ID number".to_owned(),
                ));
            },
        };
        if value > 0xffff_ffff {
            proof {
                assert(spec_try_parse_u32(ps[i as int]) is None);
                assert(exists|j: int|
                    0 <= j < 8 && !(#[trigger] spec_try_parse_u32(ps[j]) is Some));
            }
            return Err(VerificationError::InvalidImageID("Invalid image ID number".to_owned()));
        }
        out.push(value as u32);
        i += 1;
    }
    Ok(out)
}

} // verus!
