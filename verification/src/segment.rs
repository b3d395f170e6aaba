//! Sentence segmentation: splitting raw text into an ordered sequence of
//! sentence-like chunks by punctuation heuristics.
//!
//! A boundary sits at a period that is neither followed by another period
//! (ellipses stay whole) nor by a digit (decimals such as "3.14" stay
//! whole), and at the last character of the input, so every non-empty
//! input closes its final fragment. Fragments are trimmed of surrounding
//! whitespace. The scan works on decoded characters, never on raw bytes,
//! so multi-byte text cannot be misread at a lookahead.

use vstd::prelude::*;

verus! {

/// Whitespace that trimming removes from the edges of a fragment: the
/// characters with the Unicode White_Space property.
pub open spec fn is_space_char(c: char) -> bool {
    ||| (9 <= (c as u32) && (c as u32) <= 13)  // tab, line feed, vertical tab, form feed, carriage return
    ||| c == ' '
    ||| c == '\u{85}'  // next line
    ||| c == '\u{A0}'  // no-break space
    ||| c == '\u{1680}'  // ogham space mark
    ||| (0x2000 <= (c as u32) && (c as u32) <= 0x200A)  // en quad .. hair space
    ||| c == '\u{2028}'  // line separator
    ||| c == '\u{2029}'  // paragraph separator
    ||| c == '\u{202F}'  // narrow no-break space
    ||| c == '\u{205F}'  // medium mathematical space
    ||| c == '\u{3000}'  // ideographic space
}

/// Decimal digits, which block a sentence boundary right after a period.
pub open spec fn is_digit_char(c: char) -> bool {
    48 <= (c as u32) && (c as u32) <= 57
}

/// Exec mirror of [`is_space_char`].
pub fn space_char(c: char) -> (r: bool)
    ensures
        r == is_space_char(c),
{
    let u = c as u32;
    (9 <= u && u <= 13) || u == 0x20 || u == 0x85 || u == 0xA0 || u == 0x1680 || (0x2000 <= u && u
        <= 0x200A) || u == 0x2028 || u == 0x2029 || u == 0x202F || u == 0x205F || u == 0x3000
}

/// Exec mirror of [`is_digit_char`].
pub fn digit_char(c: char) -> (r: bool)
    ensures
        r == is_digit_char(c),
{
    let u = c as u32;
    48 <= u && u <= 57
}

/// A sentence boundary: a period not followed by another period or a
/// digit, or the final character of the input.
pub open spec fn is_boundary(s: Seq<char>, i: int) -> bool {
    &&& 0 <= i < s.len()
    &&& (i == s.len() - 1 || (s[i] == '.' && s[i + 1] != '.' && !is_digit_char(s[i + 1])))
}

/// The untrimmed fragments of `s` from scan position `i` on, where the
/// fragment being built started at `start`.
pub open spec fn fragments_scan(s: Seq<char>, start: int, i: int) -> Seq<Seq<char>>
    decreases s.len() - i,
{
    if i < 0 || i >= s.len() || start < 0 || start > i {
        Seq::empty()
    } else if is_boundary(s, i) {
        seq![s.subrange(start, i + 1)] + fragments_scan(s, i + 1, i + 1)
    } else {
        fragments_scan(s, start, i + 1)
    }
}

/// The untrimmed fragments of the whole input.
pub open spec fn raw_fragments(s: Seq<char>) -> Seq<Seq<char>> {
    fragments_scan(s, 0, 0)
}

/// What is left of `s` once leading whitespace goes.
pub open spec fn trim_start_spec(s: Seq<char>) -> Seq<char>
    decreases s.len(),
{
    if s.len() > 0 && is_space_char(s[0]) {
        trim_start_spec(s.drop_first())
    } else {
        s
    }
}

/// What is left of `s` once trailing whitespace goes.
pub open spec fn trim_end_spec(s: Seq<char>) -> Seq<char>
    decreases s.len(),
{
    if s.len() > 0 && is_space_char(s.last()) {
        trim_end_spec(s.drop_last())
    } else {
        s
    }
}

/// `s` without surrounding whitespace.
pub open spec fn trim_spec(s: Seq<char>) -> Seq<char> {
    trim_end_spec(trim_start_spec(s))
}

/// Every fragment trimmed.
pub open spec fn trim_all(ss: Seq<Seq<char>>) -> Seq<Seq<char>> {
    ss.map_values(|f: Seq<char>| trim_spec(f))
}

/// The chunks that segmentation yields: the trimmed fragments, or the
/// input itself as a single chunk when it is empty.
pub open spec fn segments(s: Seq<char>) -> Seq<Seq<char>> {
    if s.len() == 0 {
        seq![s]
    } else {
        trim_all(raw_fragments(s))
    }
}

/// Segmentation always yields at least one chunk, whatever the input.
pub proof fn lemma_segments_nonempty(s: Seq<char>)
    ensures
        segments(s).len() >= 1,
{
    if s.len() > 0 {
        lemma_scan_nonempty(s, 0, 0);
    }
}

proof fn lemma_scan_nonempty(s: Seq<char>, start: int, i: int)
    requires
        0 <= start <= i < s.len(),
    ensures
        fragments_scan(s, start, i).len() >= 1,
    decreases s.len() - i,
{
    if is_boundary(s, i) {
    } else {
        lemma_scan_nonempty(s, start, i + 1);
    }
}

/// Joining the untrimmed fragments of a non-empty input in order gives
/// back exactly the input: segmentation loses no content, and the
/// published chunks differ from the fragments only by the whitespace
/// trimmed off their edges.
pub proof fn lemma_segments_reconstruct(s: Seq<char>)
    requires
        s.len() > 0,
    ensures
        raw_fragments(s).flatten() == s,
        segments(s) == trim_all(raw_fragments(s)),
{
    lemma_scan_flatten(s, 0, 0);
    assert(s.subrange(0, s.len() as int) =~= s);
}

proof fn lemma_scan_flatten(s: Seq<char>, start: int, i: int)
    requires
        0 <= start <= i < s.len(),
    ensures
        fragments_scan(s, start, i).flatten() == s.subrange(start, s.len() as int),
    decreases s.len() - i,
{
    if is_boundary(s, i) {
        let frag = s.subrange(start, i + 1);
        let rest = fragments_scan(s, i + 1, i + 1);
        assert((seq![frag] + rest).flatten() == frag + rest.flatten()) by {
            assert((seq![frag] + rest).first() == frag);
            assert((seq![frag] + rest).drop_first() =~= rest);
        }
        if i + 1 >= s.len() {
            assert(rest =~= Seq::<Seq<char>>::empty());
            assert(rest.flatten() =~= Seq::<char>::empty());
            assert(frag + rest.flatten() =~= s.subrange(start, s.len() as int));
        } else {
            lemma_scan_flatten(s, i + 1, i + 1);
            assert(frag + s.subrange(i + 1, s.len() as int) =~= s.subrange(
                start,
                s.len() as int,
            ));
        }
    } else {
        lemma_scan_flatten(s, start, i + 1);
    }
}

proof fn lemma_trim_start_subrange(s: Seq<char>, a: int)
    requires
        0 <= a <= s.len(),
        forall|k: int| 0 <= k < a ==> is_space_char(s[k]),
        a < s.len() ==> !is_space_char(s[a]),
    ensures
        trim_start_spec(s) == s.subrange(a, s.len() as int),
    decreases a,
{
    if a == 0 {
        assert(s.subrange(0, s.len() as int) =~= s);
    } else {
        let t = s.drop_first();
        assert(t =~= s.subrange(1, s.len() as int));
        lemma_trim_start_subrange(t, a - 1);
        assert(t.subrange(a - 1, t.len() as int) =~= s.subrange(a, s.len() as int));
    }
}

proof fn lemma_trim_end_subrange(s: Seq<char>, b: int)
    requires
        0 <= b <= s.len(),
        forall|k: int| b <= k < s.len() ==> is_space_char(s[k]),
        b > 0 ==> !is_space_char(s[b - 1]),
    ensures
        trim_end_spec(s) == s.subrange(0, b),
    decreases s.len() - b,
{
    if b == s.len() {
        if s.len() > 0 && is_space_char(s.last()) {
            assert(false);
        }
        assert(s.subrange(0, s.len() as int) =~= s);
    } else {
        let t = s.drop_last();
        assert(t =~= s.subrange(0, s.len() - 1));
        lemma_trim_end_subrange(t, b);
        assert(t.subrange(0, b) =~= s.subrange(0, b));
    }
}

/// Trims surrounding whitespace from a fragment.
pub fn trim_str(s: &str) -> (r: String)
    ensures
        r@ == trim_spec(s@),
{
    let n = s.unicode_len();
    let mut a: usize = 0;
    while a < n && space_char(s.get_char(a))
        invariant
            n == s@.len(),
            a <= n,
            forall|k: int| 0 <= k < a ==> is_space_char(s@[k]),
        decreases n - a,
    {
        a += 1;
    }
    let mut b: usize = n;
    while b > a && space_char(s.get_char(b - 1))
        invariant
            n == s@.len(),
            a <= b <= n,
            forall|k: int| b <= k < n ==> is_space_char(s@[k]),
        decreases b,
    {
        b -= 1;
    }
    let sub = s.substring_char(a, b);
    proof {
        lemma_trim_start_subrange(s@, a as int);
        let t = s@.subrange(a as int, s@.len() as int);
        lemma_trim_end_subrange(t, b - a);
        assert(t.subrange(0, b - a) =~= s@.subrange(a as int, b as int));
    }
    sub.to_owned()
}

/// Splits the input into sentence-like chunks at the boundaries described
/// above; an input without any boundary (only the empty string, since the
/// last character always closes a fragment) comes back as a single chunk
/// equal to itself.
pub fn split_text(input: String) -> (r: Vec<String>)
    ensures
        r.deep_view() == segments(input@),
        r.len() >= 1,
{
    let n = input.as_str().unicode_len();
    let mut out: Vec<String> = Vec::new();
    let mut start: usize = 0;
    let mut i: usize = 0;
    while i < n
        invariant
            n == input@.len(),
            start <= i <= n,
            n == 0 ==> out.len() == 0,
            n > 0 ==> trim_all(raw_fragments(input@)) =~= out.deep_view() + trim_all(
                fragments_scan(input@, start as int, i as int),
            ),
        decreases n - i,
    {
        let s = input.as_str();
        let c = s.get_char(i);
        let boundary = if i == n - 1 {
            true
        } else {
            if c == '.' {
                let nx = s.get_char(i + 1);
                nx != '.' && !digit_char(nx)
            } else {
                false
            }
        };
        proof {
            assert(boundary == is_boundary(input@, i as int));
        }
        if boundary {
            let frag = s.substring_char(start, i + 1);
            let trimmed = trim_str(frag);
            let ghost old_dv = out.deep_view();
            out.push(trimmed);
            proof {
                let sv = input@;
                let scan_here = fragments_scan(sv, start as int, i as int);
                let rest = fragments_scan(sv, i as int + 1, i as int + 1);
                assert(scan_here == seq![sv.subrange(start as int, i as int + 1)] + rest);
                assert(trim_all(scan_here) =~= seq![trim_spec(
                    sv.subrange(start as int, i as int + 1),
                )] + trim_all(rest));
                assert(out.deep_view() =~= old_dv.push(trimmed@));
                assert(old_dv.push(trimmed@) + trim_all(rest) =~= old_dv + trim_all(scan_here));
            }
            start = i + 1;
        }
        i += 1;
    }
    if out.len() == 0 {
        proof {
            if n > 0 {
                lemma_scan_nonempty(input@, 0, 0);
                assert(trim_all(raw_fragments(input@)).len() >= 1);
                assert(out.deep_view().len() == 0);
                assert(fragments_scan(input@, start as int, n as int) =~= Seq::<Seq<char>>::empty());
                assert(false);
            }
        }
        let ghost old_dv = out.deep_view();
        out.push(input);
        proof {
            assert(out.deep_view() =~= segments(out@[0]@));
        }
    } else {
        proof {
            assert(n > 0);
            assert(fragments_scan(input@, start as int, n as int) =~= Seq::<Seq<char>>::empty());
            assert(out.deep_view() =~= trim_all(raw_fragments(input@)));
        }
    }
    out
}

/// Which chunks one dispatch works on: the segmented sentences when the
/// caller asked to split, the whole input as a single chunk otherwise.
pub open spec fn chunks_of(s: Seq<char>, split: bool) -> Seq<Seq<char>> {
    if split {
        segments(s)
    } else {
        seq![s]
    }
}

/// The characters of `s` that are not whitespace, in order.
pub open spec fn content_of(s: Seq<char>) -> Seq<char>
    decreases s.len(),
{
    if s.len() == 0 {
        s
    } else if is_space_char(s.last()) {
        content_of(s.drop_last())
    } else {
        content_of(s.drop_last()).push(s.last())
    }
}

proof fn lemma_content_add(a: Seq<char>, b: Seq<char>)
    ensures
        content_of(a + b) == content_of(a) + content_of(b),
    decreases b.len(),
{
    if b.len() == 0 {
        assert(a + b =~= a);
        assert(content_of(a) + content_of(b) =~= content_of(a));
    } else {
        let ab = a + b;
        assert(ab.drop_last() =~= a + b.drop_last());
        assert(ab.last() == b.last());
        lemma_content_add(a, b.drop_last());
        if !is_space_char(b.last()) {
            assert(content_of(a) + content_of(b.drop_last()).push(b.last()) =~= (content_of(a)
                + content_of(b.drop_last())).push(b.last()));
        }
    }
}

proof fn lemma_trim_start_content(s: Seq<char>)
    ensures
        content_of(trim_start_spec(s)) == content_of(s),
    decreases s.len(),
{
    if s.len() > 0 && is_space_char(s[0]) {
        let head = seq![s[0]];
        assert(s =~= head + s.drop_first());
        lemma_content_add(head, s.drop_first());
        assert(content_of(head) =~= Seq::<char>::empty()) by {
            assert(head.drop_last() =~= Seq::<char>::empty());
            assert(content_of(Seq::<char>::empty()) =~= Seq::<char>::empty());
            assert(is_space_char(head.last()));
        }
        assert(content_of(s) =~= content_of(s.drop_first()));
        lemma_trim_start_content(s.drop_first());
    }
}

proof fn lemma_trim_end_content(s: Seq<char>)
    ensures
        content_of(trim_end_spec(s)) == content_of(s),
    decreases s.len(),
{
    if s.len() > 0 && is_space_char(s.last()) {
        lemma_trim_end_content(s.drop_last());
    }
}

proof fn lemma_trim_content(s: Seq<char>)
    ensures
        content_of(trim_spec(s)) == content_of(s),
{
    lemma_trim_start_content(s);
    lemma_trim_end_content(trim_start_spec(s));
}

proof fn lemma_flatten_content(ss: Seq<Seq<char>>, tt: Seq<Seq<char>>)
    requires
        ss.len() == tt.len(),
        forall|i: int| 0 <= i < ss.len() ==> content_of(#[trigger] tt[i]) == content_of(ss[i]),
    ensures
        content_of(tt.flatten()) == content_of(ss.flatten()),
    decreases ss.len(),
{
    if ss.len() == 0 {
        assert(ss.flatten() =~= Seq::<char>::empty());
        assert(tt.flatten() =~= Seq::<char>::empty());
    } else {
        assert(ss.flatten() == ss.first() + ss.drop_first().flatten());
        assert(tt.flatten() == tt.first() + tt.drop_first().flatten());
        assert(forall|i: int|
            0 <= i < ss.drop_first().len() ==> content_of(#[trigger] tt.drop_first()[i])
                == content_of(ss.drop_first()[i]));
        lemma_flatten_content(ss.drop_first(), tt.drop_first());
        lemma_content_add(ss.first(), ss.drop_first().flatten());
        lemma_content_add(tt.first(), tt.drop_first().flatten());
    }
}

/// Joining the chunks of any input, in order, keeps every character of
/// the input except the whitespace trimmed off the fragments' edges:
/// segmentation reproduces the input's content losslessly modulo
/// surrounding whitespace.
pub proof fn lemma_segments_preserve_content(s: Seq<char>)
    ensures
        content_of(segments(s).flatten()) == content_of(s),
{
    if s.len() == 0 {
        assert(seq![s].drop_first() =~= Seq::<Seq<char>>::empty());
        assert(seq![s].drop_first().flatten() =~= Seq::<char>::empty());
        assert(seq![s].flatten() =~= s);
    } else {
        let raw = raw_fragments(s);
        lemma_segments_reconstruct(s);
        assert(forall|i: int|
            0 <= i < raw.len() ==> content_of(#[trigger] trim_all(raw)[i]) == content_of(
                raw[i],
            )) by {
            assert forall|i: int| 0 <= i < raw.len() implies content_of(#[trigger] trim_all(raw)[i])
                == content_of(raw[i]) by {
                lemma_trim_content(raw[i]);
            }
        }
        lemma_flatten_content(raw, trim_all(raw));
    }
}

/// Applies the caller's split toggle: segmentation when `split` is set,
/// the input as one chunk when it is not.
pub fn handle_split(input: String, split: bool) -> (r: Vec<String>)
    ensures
        r.deep_view() == chunks_of(input@, split),
        r.len() >= 1,
{
    if split {
        split_text(input)
    } else {
        let mut out: Vec<String> = Vec::new();
        out.push(input);
        proof {
            assert(out.deep_view() =~= seq![out@[0]@]);
        }
        out
    }
}

} // verus!
