//! UUID v4 generation, surfaced via the «🔮 UUID» menu.
use vstd::prelude::*;

use crate::text::{decimal, digit_char, digit_value, push_decimal, push_char, push_str};

verus! {

/// The largest number of UUIDs rendered at once.
pub const MAX_UUIDS: u8 = 50;

/// Whether a character is a lowercase hexadecimal digit.
pub open spec fn is_lower_hex(c: char) -> bool {
    ('0' <= c && c <= '9') || ('a' <= c && c <= 'f')
}

/// Whether the text is a random (version 4, RFC 4122 variant) UUID in the
/// hyphenated lowercase form `xxxxxxxx-xxxx-4xxx-yxxx-xxxxxxxxxxxx`.
pub open spec fn is_v4_uuid_text(s: Seq<char>) -> bool {
    &&& s.len() == 36
    &&& forall|i: int| 0 <= i < 36 ==> if i == 8 || i == 13 || i == 18 || i == 23 {
        s[i] == '-'
    } else {
        is_lower_hex(#[trigger] s[i])
    }
    &&& s[14] == '4'
    &&& (s[19] == '8' || s[19] == '9' || s[19] == 'a' || s[19] == 'b')
}

/// Calls `uuid::Uuid::new_v4()` and renders it with `Display`. Claimed, after
/// the crate's documentation: a random version-4 UUID in hyphenated
/// lowercase form. Which UUID comes out is random and not stated.
#[verifier::external_body]
fn new_v4_text() -> (s: String)
    ensures
        is_v4_uuid_text(s@),
{
    uuid::Uuid::new_v4().to_string()
}

/// How many UUIDs a request for `qty` renders: 0 counts as 1, at most
/// [`MAX_UUIDS`].
pub open spec fn uuid_count(qty: u8) -> nat {
    if qty < 1 {
        1
    } else if qty > MAX_UUIDS {
        MAX_UUIDS as nat
    } else {
        qty as nat
    }
}

/// Line `i` (from 0) of the rendering: `<i+1>\.  `<uuid>``, MarkdownV2.
pub open spec fn uuid_line(i: nat, id: Seq<char>) -> Seq<char> {
    decimal(i + 1) + seq!['\\', '.', ' ', ' ', '`'] + id + seq!['`']
}

/// The lines of the rendering joined by newlines.
pub open spec fn uuid_lines(ids: Seq<Seq<char>>) -> Seq<char>
    decreases ids.len(),
{
    if ids.len() == 0 {
        Seq::empty()
    } else if ids.len() == 1 {
        uuid_line(0, ids[0])
    } else {
        uuid_lines(ids.drop_last()) + seq!['\n'] + uuid_line((ids.len() - 1) as nat, ids.last())
    }
}

/// Render the given UUID texts as numbered MarkdownV2 lines.
pub fn render_uuids(ids: &[String]) -> (s: String)
    requires
        ids@.len() < u64::MAX,
    ensures
        s@ == uuid_lines(ids@.map_values(|id: String| id@)),
{
    let ghost views = ids@.map_values(|id: String| id@);
    let mut out = String::new();
    let mut i: usize = 0;
    while i < ids.len()
        invariant
            i <= ids@.len(),
            ids@.len() < u64::MAX,
            views == ids@.map_values(|id: String| id@),
            out@ == uuid_lines(views.take(i as int)),
        decreases ids@.len() - i,
    {
        let ghost before = out@;
        if i > 0 {
            push_char(&mut out, '\n');
        }
        push_decimal(&mut out, (i + 1) as u64);
        push_char(&mut out, '\\');
        push_char(&mut out, '.');
        push_char(&mut out, ' ');
        push_char(&mut out, ' ');
        push_char(&mut out, '`');
        push_str(&mut out, ids[i].as_str());
        push_char(&mut out, '`');
        proof {
            let t = views.take(i + 1);
            assert(t.drop_last() =~= views.take(i as int));
            assert(t.last() == ids@[i as int]@);
            if i == 0 {
                assert(out@ =~= uuid_line(0, ids@[0]@));
            } else {
                assert(out@ =~= before + seq!['\n'] + uuid_line(i as nat, ids@[i as int]@));
            }
        }
        i = i + 1;
    }
    assert(views.take(ids@.len() as int) =~= views);
    out
}

/// Whether a text renders `uuid_count(qty)` random UUIDs as numbered lines.
pub open spec fn is_uuid_rendering(qty: u8, s: Seq<char>) -> bool {
    exists|ids: Seq<Seq<char>>| {
        &&& ids.len() == uuid_count(qty)
        &&& forall|i: int| 0 <= i < ids.len() ==> is_v4_uuid_text(#[trigger] ids[i])
        &&& s == uuid_lines(ids)
    }
}

/// The texts of a sequence of strings.
pub open spec fn texts(ids: Seq<String>) -> Seq<Seq<char>> {
    ids.map_values(|id: String| id@)
}

/// Whether a text is among the texts of the strings.
fn seen(ids: &Vec<String>, t: &String) -> (b: bool)
    ensures
        b == texts(ids@).contains(t@),
{
    let mut j: usize = 0;
    while j < ids.len()
        invariant
            j <= ids@.len(),
            forall|k: int| 0 <= k < j ==> ids@[k]@ != t@,
        decreases ids@.len() - j,
    {
        if ids[j] == *t {
            assert(texts(ids@)[j as int] == t@);
            return true;
        }
        j = j + 1;
    }
    assert forall|k: int| 0 <= k < texts(ids@).len() implies texts(ids@)[k] != t@ by {
        assert(texts(ids@)[k] == ids@[k]@);
    }
    false
}

/// The stand-in UUID number `k` (below 100), `00000000-0000-4000-8000-0000000000kk`:
/// a well-formed v4 text that differs for each `k`.
pub open spec fn spare_uuid(k: nat) -> Seq<char> {
    "00000000-0000-4000-8000-0000000000"@ + seq![digit_char(k as int / 10), digit_char(k as int % 10)]
}

/// The decimal digit of a value below 10.
fn digit(d: u8) -> (c: char)
    requires
        d < 10,
    ensures
        c == digit_char(d as int),
{
    match d {
        0 => '0',
        1 => '1',
        2 => '2',
        3 => '3',
        4 => '4',
        5 => '5',
        6 => '6',
        7 => '7',
        8 => '8',
        _ => '9',
    }
}

/// Stand-in number `k` is a well-formed v4 text, and different numbers give
/// different texts.
proof fn lemma_spare_uuid(k: nat)
    requires
        k < 100,
    ensures
        is_v4_uuid_text(spare_uuid(k)),
        forall|m: nat| m < 100 && m != k ==> spare_uuid(m) != spare_uuid(k),
{
    reveal_strlit("00000000-0000-4000-8000-0000000000");
    let s = spare_uuid(k);
    assert(s.len() == 36);
    assert forall|i: int| 0 <= i < 36 implies if i == 8 || i == 13 || i == 18 || i == 23 {
        s[i] == '-'
    } else {
        is_lower_hex(#[trigger] s[i])
    } by {}
    assert forall|m: nat| m < 100 && m != k implies spare_uuid(m) != spare_uuid(k) by {
        if spare_uuid(m) == spare_uuid(k) {
            assert(spare_uuid(m)[34] == spare_uuid(k)[34]);
            assert(spare_uuid(m)[35] == spare_uuid(k)[35]);
            assert(digit_value(digit_char(m as int / 10)) == m as int / 10);
            assert(digit_value(digit_char(k as int / 10)) == k as int / 10);
            assert(digit_value(digit_char(m as int % 10)) == m as int % 10);
            assert(digit_value(digit_char(k as int % 10)) == k as int % 10);
            assert(m == k) by (nonlinear_arith)
                requires
                    m as int / 10 == k as int / 10,
                    m as int % 10 == k as int % 10,
            ;
        }
    }
}

/// Among the first `n + 1` stand-ins, one is missing from `n` texts.
proof fn lemma_spare_free(seen_texts: Seq<Seq<char>>)
    requires
        seen_texts.len() < 100,
    ensures
        exists|k: nat| k <= seen_texts.len() && !seen_texts.contains(#[trigger] spare_uuid(k)),
{
    let n = seen_texts.len();
    if forall|k: nat| k <= n ==> seen_texts.contains(#[trigger] spare_uuid(k)) {
        let cands = Seq::new(n + 1, |k: int| spare_uuid(k as nat));
        assert(cands.no_duplicates()) by {
            assert forall|i: int, j: int| 0 <= i < cands.len() && 0 <= j < cands.len() && i != j implies cands[i]
                != cands[j] by {
                lemma_spare_uuid(i as nat);
            }
        }
        cands.unique_seq_to_set();
        assert(cands.to_set().subset_of(seen_texts.to_set())) by {
            assert forall|t: Seq<char>| cands.to_set().contains(t) implies seen_texts.to_set().contains(t) by {
                let i = choose|i: int| 0 <= i < cands.len() && cands[i] == t;
                assert(seen_texts.contains(spare_uuid(i as nat)));
            }
        }
        seen_texts.lemma_cardinality_of_set();
        vstd::set_lib::lemma_len_subset(cands.to_set(), seen_texts.to_set());
        assert(false);
    }
}

/// Stand-in number `k` as a string.
fn spare_text(k: u8) -> (s: String)
    requires
        k < 100,
    ensures
        s@ == spare_uuid(k as nat),
{
    let mut s = String::from_str("00000000-0000-4000-8000-0000000000");
    push_char(&mut s, digit(k / 10));
    push_char(&mut s, digit(k % 10));
    s
}

/// A v4 text that none of the given texts is.
fn unseen_spare(ids: &Vec<String>) -> (s: String)
    requires
        ids@.len() < 100,
    ensures
        is_v4_uuid_text(s@),
        !texts(ids@).contains(s@),
{
    proof {
        lemma_spare_free(texts(ids@));
    }
    let mut k: u8 = 0;
    while k as usize <= ids.len()
        invariant
            ids@.len() < 100,
            k <= ids@.len() + 1,
            forall|m: nat| m < k ==> texts(ids@).contains(#[trigger] spare_uuid(m)),
            exists|m: nat| m <= ids@.len() && !texts(ids@).contains(#[trigger] spare_uuid(m)),
        decreases ids@.len() + 1 - k,
    {
        let candidate = spare_text(k);
        if !seen(ids, &candidate) {
            proof {
                lemma_spare_uuid(k as nat);
            }
            return candidate;
        }
        k = k + 1;
    }
    proof {
        let m = choose|m: nat| m <= ids@.len() && !texts(ids@).contains(#[trigger] spare_uuid(m));
        assert(m < k);
    }
    spare_text(0)
}

/// Render `qty` fresh random UUIDs as MarkdownV2 text. Treats 0 as 1; caps at
/// [`MAX_UUIDS`]. Each line shows its own UUID: a drawn UUID that repeats an
/// earlier line (which its 122 random bits make practically impossible) is
/// replaced by a stand-in that differs from every earlier line.
pub fn render(qty: u8) -> (s: String)
    ensures
        is_uuid_rendering(qty, s@),
        exists|ids: Seq<Seq<char>>| {
            &&& ids.len() == uuid_count(qty)
            &&& s@ == uuid_lines(ids)
            &&& forall|i: int| 0 <= i < ids.len() ==> is_v4_uuid_text(#[trigger] ids[i])
            &&& forall|i: int, j: int| 0 <= i < ids.len() && 0 <= j < ids.len() && i != j ==> ids[i] != ids[j]
        },
{
    let count: u8 = if qty < 1 {
        1
    } else if qty > MAX_UUIDS {
        MAX_UUIDS
    } else {
        qty
    };
    let mut ids: Vec<String> = Vec::new();
    let mut i: u8 = 0;
    while i < count
        invariant
            i <= count,
            count <= MAX_UUIDS,
            count as nat == uuid_count(qty),
            ids@.len() == i,
            forall|j: int| 0 <= j < i ==> is_v4_uuid_text(#[trigger] ids@[j]@),
            forall|j: int, k: int| 0 <= j < i && 0 <= k < i && j != k ==> ids@[j]@ != ids@[k]@,
        decreases count - i,
    {
        let drawn = new_v4_text();
        let id = if seen(&ids, &drawn) {
            unseen_spare(&ids)
        } else {
            drawn
        };
        proof {
            assert forall|j: int| 0 <= j < i implies ids@[j]@ != id@ by {
                assert(texts(ids@)[j] == ids@[j]@);
            }
        }
        ids.push(id);
        i = i + 1;
    }
    let s = render_uuids(ids.as_slice());
    let ghost views = ids@.map_values(|id: String| id@);
    assert forall|j: int| 0 <= j < views.len() implies is_v4_uuid_text(#[trigger] views[j]) by {
        assert(views[j] == ids@[j]@);
    }
    assert forall|j: int, k: int| 0 <= j < views.len() && 0 <= k < views.len() && j != k implies views[j] != views[k] by {
        assert(views[j] == ids@[j]@);
        assert(views[k] == ids@[k]@);
    }
    assert(views.len() == uuid_count(qty) && s@ == uuid_lines(views));
    s
}

} // verus!
