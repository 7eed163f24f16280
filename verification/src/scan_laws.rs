//! What holds of the way in which answers to a search are read.
use vstd::prelude::*;

#[allow(unused_imports)]
use crate::lossy::utf8_lossy;
#[allow(unused_imports)]
use crate::scan::{
    ascii, distinct_addrs, found_views, has_addr, is_tv_line, is_uuid_line, names_tv, occurs_at,
    occurs_in, split, uuid_in, FoundTV, FoundView, ScanState, COLON, NEWLINE,
};

verus! {

/// Splitting cuts at every separator and nowhere else: no piece holds one, there is one piece more than
/// there are separators, and the pieces with a separator after each are the bytes with one more at the
/// end.
pub proof fn law_split_cuts_at_every_separator(bytes: Seq<u8>, sep: u8)
    ensures
        split(bytes, sep).len() == bytes.filter(|b: u8| b == sep).len() + 1,
        forall|k: int|
            0 <= k < split(bytes, sep).len() ==> !(#[trigger] split(bytes, sep)[k]).contains(sep),
        split(bytes, sep).map_values(|piece: Seq<u8>| piece.push(sep)).flatten() == bytes.push(sep),
    decreases bytes.len(),
{
    let is_sep = |b: u8| b == sep;
    let closed = |piece: Seq<u8>| piece.push(sep);
    let pieces = split(bytes, sep);
    if bytes.len() == 0 {
        assert(pieces.map_values(closed) == seq![seq![sep]]);
        seq![seq![sep]].lemma_flatten_one_element();
        assert(bytes.push(sep) == seq![sep]);
        assert(bytes.filter(is_sep).len() == 0);
    } else {
        let front = bytes.drop_last();
        let last = bytes.last();
        let before = split(front, sep);
        law_split_cuts_at_every_separator(front, sep);
        assert(front.push(last) == bytes);
        front.lemma_filter_push(last, is_sep);
        if last == sep {
            assert(pieces == before.push(Seq::empty()));
            assert(pieces.map_values(closed) == before.map_values(closed).push(seq![sep]));
            before.map_values(closed).lemma_flatten_push(seq![sep]);
            assert(bytes.push(sep) == front.push(sep) + seq![sep]);
        } else {
            let kept = before.drop_last();
            let cut = before.last();
            assert(pieces == kept.push(cut.push(last)));
            assert(before == kept.push(cut));
            assert(before.map_values(closed) == kept.map_values(closed).push(cut.push(sep)));
            assert(pieces.map_values(closed) == kept.map_values(closed).push(
                cut.push(last).push(sep),
            ));
            kept.map_values(closed).lemma_flatten_push(cut.push(sep));
            kept.map_values(closed).lemma_flatten_push(cut.push(last).push(sep));
            let whole = kept.map_values(closed).flatten();
            assert(whole + cut.push(sep) == (whole + cut).push(sep));
            assert((whole + cut).push(sep).drop_last() == whole + cut);
            assert(front.push(sep).drop_last() == front);
            assert(whole + cut.push(last).push(sep) == (whole + cut).push(last).push(sep));
            assert forall|k: int| 0 <= k < pieces.len() implies !(#[trigger] pieces[k]).contains(
                sep,
            ) by {
                if k < kept.len() {
                    assert(pieces[k] == before[k]);
                } else {
                    assert(before[k] == cut);
                    assert forall|x: int| 0 <= x < pieces[k].len() implies pieces[k][x] != sep by {
                        if x < cut.len() {
                            assert(cut.contains(cut[x]));
                        }
                    }
                }
            }
        }
    }
}

/// Where the `k`-th of the pieces begins, each being followed by a separator.
spec fn start_of(pieces: Seq<Seq<u8>>, k: int) -> int
    decreases k,
{
    if k <= 0 {
        0
    } else {
        start_of(pieces, k - 1) + pieces[k - 1].len() + 1
    }
}

/// The pieces before the `k`-th decide where it begins.
proof fn lemma_start_of(a: Seq<Seq<u8>>, b: Seq<Seq<u8>>, k: int)
    requires
        forall|i: int| 0 <= i < k ==> #[trigger] a[i] == b[i],
    ensures
        start_of(a, k) == start_of(b, k),
    decreases k,
{
    if k > 0 {
        lemma_start_of(a, b, k - 1);
        assert(a[k - 1] == b[k - 1]);
    }
}

/// Pieces begin one after another.
proof fn lemma_starts_grow(pieces: Seq<Seq<u8>>, k: int, l: int)
    requires
        0 <= k < l,
    ensures
        start_of(pieces, k) + pieces[k].len() + 1 <= start_of(pieces, l),
    decreases l,
{
    if k < l - 1 {
        lemma_starts_grow(pieces, k, l - 1);
    }
}

/// The bytes from `i` to `j` lie between two separators, or the ends, and hold none.
pub open spec fn is_piece(bytes: Seq<u8>, sep: u8, i: int, j: int) -> bool {
    &&& 0 <= i <= j <= bytes.len()
    &&& i == 0 || bytes[i - 1] == sep
    &&& j == bytes.len() || bytes[j] == sep
    &&& forall|k: int| i <= k < j ==> #[trigger] bytes[k] != sep
}

/// Each piece lies between two separators, or the ends.
proof fn lemma_piece_lies(bytes: Seq<u8>, sep: u8, k: int)
    requires
        0 <= k < split(bytes, sep).len(),
    ensures
        ({
            let i = start_of(split(bytes, sep), k);
            let j = i + split(bytes, sep)[k].len();
            &&& is_piece(bytes, sep, i, j)
            &&& split(bytes, sep)[k] == bytes.subrange(i, j)
            &&& k == split(bytes, sep).len() - 1 <==> j == bytes.len()
        }),
    decreases bytes.len(),
{
    let pieces = split(bytes, sep);
    let i = start_of(pieces, k);
    let j = i + pieces[k].len();
    if bytes.len() > 0 {
        let front = bytes.drop_last();
        let before = split(front, sep);
        lemma_split_is_not_empty(front, sep);
        if k < before.len() {
            lemma_piece_lies(front, sep, k);
            lemma_start_of(pieces, before, k);
            let end = i + before[k].len();
            assert(is_piece(front, sep, i, end));
            assert forall|x: int| i <= x < end implies #[trigger] bytes[x] != sep by {
                assert(front[x] != sep);
            }
            if end < front.len() {
                assert(front[end] == sep);
            }
            if i > 0 {
                assert(front[i - 1] == sep);
            }
            if bytes.last() != sep && k == before.len() - 1 {
                assert(pieces[k] == before[k].push(bytes.last()));
                assert(bytes.subrange(i, j) == front.subrange(i, end).push(bytes.last()));
            } else {
                assert(pieces[k] == before[k]);
                assert(bytes.subrange(i, j) == front.subrange(i, end));
            }
        } else {
            let l = before.len() - 1;
            lemma_piece_lies(front, sep, l);
            lemma_start_of(pieces, before, l);
            assert(pieces[l] == before[l]);
            assert(bytes.subrange(i, j) == Seq::<u8>::empty());
        }
    } else {
        assert(bytes.subrange(0, 0) == Seq::<u8>::empty());
    }
}

/// Every position lies in a piece or at its end.
proof fn lemma_pieces_cover(bytes: Seq<u8>, sep: u8, p: int) -> (k: int)
    requires
        0 <= p <= bytes.len(),
    ensures
        0 <= k < split(bytes, sep).len(),
        start_of(split(bytes, sep), k) <= p <= start_of(split(bytes, sep), k) + split(
            bytes,
            sep,
        )[k].len(),
    decreases bytes.len(),
{
    let pieces = split(bytes, sep);
    if p == bytes.len() {
        let k = pieces.len() - 1;
        lemma_split_is_not_empty(bytes, sep);
        lemma_piece_lies(bytes, sep, k);
        k
    } else {
        let front = bytes.drop_last();
        let k = lemma_pieces_cover(front, sep, p);
        lemma_start_of(pieces, split(front, sep), k);
        k
    }
}

/// There is always at least one piece.
proof fn lemma_split_is_not_empty(bytes: Seq<u8>, sep: u8)
    ensures
        split(bytes, sep).len() > 0,
    decreases bytes.len(),
{
    if bytes.len() > 0 {
        lemma_split_is_not_empty(bytes.drop_last(), sep);
    }
}

/// What lies between two separators, or the ends, is one of the pieces.
proof fn lemma_is_piece(bytes: Seq<u8>, sep: u8, i: int, j: int) -> (k: int)
    requires
        is_piece(bytes, sep, i, j),
    ensures
        0 <= k < split(bytes, sep).len(),
        start_of(split(bytes, sep), k) == i,
        split(bytes, sep)[k] == bytes.subrange(i, j),
{
    let k = lemma_pieces_cover(bytes, sep, i);
    lemma_piece_lies(bytes, sep, k);
    let start = start_of(split(bytes, sep), k);
    let end = start + split(bytes, sep)[k].len();
    if start < i {
        assert(bytes[i - 1] != sep);
    }
    if j < end {
        assert(bytes[j] != sep);
    }
    if end < j {
        assert(bytes[end] == sep);
    }
    k
}

/// Whether `piece` lies somewhere between two separators, or the ends.
pub open spec fn is_between(bytes: Seq<u8>, sep: u8, piece: Seq<u8>) -> bool {
    exists|i: int, j: int| #[trigger] is_piece(bytes, sep, i, j) && piece == bytes.subrange(i, j)
}

/// What is split off is exactly what lies between two separators, or the ends.
pub proof fn law_pieces_lie_between_separators(bytes: Seq<u8>, sep: u8, piece: Seq<u8>)
    ensures
        split(bytes, sep).contains(piece) <==> is_between(bytes, sep, piece),
{
    let pieces = split(bytes, sep);
    if pieces.contains(piece) {
        let k = choose|k: int| 0 <= k < pieces.len() && pieces[k] == piece;
        lemma_piece_lies(bytes, sep, k);
        let i = start_of(pieces, k);
        assert(is_piece(bytes, sep, i, i + pieces[k].len()));
    }
    if is_between(bytes, sep, piece) {
        let (i, j) = choose|i: int, j: int| #[trigger]
            is_piece(bytes, sep, i, j) && piece == bytes.subrange(i, j);
        let k = lemma_is_piece(bytes, sep, i, j);
        assert(pieces[k] == piece);
    }
}

/// The bytes of "Server:".
pub open spec fn server_prefix() -> Seq<u8> {
    seq![83u8, 101u8, 114u8, 118u8, 101u8, 114u8, 58u8]
}

/// The bytes of "USN: uuid:".
pub open spec fn usn_prefix() -> Seq<u8> {
    seq![85u8, 83u8, 78u8, 58u8, 32u8, 117u8, 117u8, 105u8, 100u8, 58u8]
}

/// A text occurs in another exactly where the other is the text with something before and after it.
pub proof fn law_occurring_is_standing_within(part: Seq<char>, text: Seq<char>)
    ensures
        occurs_in(part, text) <==> exists|before: Seq<char>, after: Seq<char>|
            text == #[trigger] (before + part + after),
{
    if occurs_in(part, text) {
        let i = choose|i: int| #[trigger] occurs_at(part, text, i);
        assert(text == text.take(i) + part + text.skip(i + part.len()));
    }
    if exists|before: Seq<char>, after: Seq<char>| text == #[trigger] (before + part + after) {
        let (before, after) = choose|before: Seq<char>, after: Seq<char>|
            text == #[trigger] (before + part + after);
        let i = before.len() as int;
        assert(text.subrange(i, i + part.len()) == part);
        assert(occurs_at(part, text, i));
    }
}

/// Whether a line begins with "Server:" and has "LGE WebOS TV" somewhere in its text.
pub open spec fn says_webos(line: Seq<u8>) -> bool {
    &&& server_prefix().is_prefix_of(line)
    &&& exists|before: Seq<char>, after: Seq<char>|
        utf8_lossy(line) == #[trigger] (before + "LGE WebOS TV"@ + after)
}

/// An answer comes from a TV exactly where one of its lines says so: a stretch between two newlines, or
/// the ends, that begins with "Server:" and has "LGE WebOS TV" in its text.
pub proof fn law_tv_is_known_by_any_of_its_lines(buf: Seq<u8>)
    ensures
        names_tv(split(buf, NEWLINE)) <==> exists|i: int, j: int| #[trigger]
            is_piece(buf, 10u8, i, j) && says_webos(buf.subrange(i, j)),
{
    let lines = split(buf, NEWLINE);
    if names_tv(lines) {
        let k = choose|k: int| 0 <= k < lines.len() && is_tv_line(#[trigger] lines[k]);
        lemma_piece_lies(buf, 10u8, k);
        let i = start_of(lines, k);
        let j = i + lines[k].len();
        lemma_tv_line(lines[k]);
        assert(is_piece(buf, 10u8, i, j) && says_webos(buf.subrange(i, j)));
    }
    if exists|i: int, j: int| #[trigger]
        is_piece(buf, 10u8, i, j) && says_webos(buf.subrange(i, j)) {
        let (i, j) = choose|i: int, j: int| #[trigger]
            is_piece(buf, 10u8, i, j) && says_webos(buf.subrange(i, j));
        let k = lemma_is_piece(buf, 10u8, i, j);
        lemma_tv_line(lines[k]);
        assert(is_tv_line(lines[k]));
    }
}

proof fn lemma_tv_line(line: Seq<u8>)
    ensures
        is_tv_line(line) == says_webos(line),
{
    reveal_strlit("Server:");
    assert(ascii("Server:"@) == server_prefix());
    law_occurring_is_standing_within("LGE WebOS TV"@, utf8_lossy(line));
}

proof fn lemma_uuid_line(line: Seq<u8>)
    ensures
        is_uuid_line(line) == usn_prefix().is_prefix_of(line),
{
    reveal_strlit("USN: uuid:");
    assert(ascii("USN: uuid:"@) == usn_prefix());
}

/// The identifier comes from the last line that holds one.
proof fn lemma_last_uuid_line(lines: Seq<Seq<u8>>)
    ensures
        match uuid_in(lines) {
            Some(uuid) => exists|k: int|
                0 <= k < lines.len() && is_uuid_line(#[trigger] lines[k]) && uuid == utf8_lossy(
                    split(lines[k], COLON)[2],
                ) && forall|l: int| k < l < lines.len() ==> !is_uuid_line(#[trigger] lines[l]),
            None => forall|k: int| 0 <= k < lines.len() ==> !is_uuid_line(#[trigger] lines[k]),
        },
    decreases lines.len(),
{
    if lines.len() > 0 {
        let front = lines.drop_last();
        let last = lines.len() - 1;
        if is_uuid_line(lines.last()) {
            assert(is_uuid_line(lines[last]));
        } else {
            lemma_last_uuid_line(front);
            match uuid_in(front) {
                Some(uuid) => {
                    let k = choose|k: int|
                        0 <= k < front.len() && is_uuid_line(#[trigger] front[k]) && uuid
                            == utf8_lossy(split(front[k], COLON)[2]) && forall|l: int|
                            k < l < front.len() ==> !is_uuid_line(#[trigger] front[l]);
                    assert(is_uuid_line(lines[k]));
                    assert forall|l: int| k < l < lines.len() implies !is_uuid_line(
                        #[trigger] lines[l],
                    ) by {
                        if l < last {
                            assert(lines[l] == front[l]);
                        }
                    }
                },
                None => {
                    assert forall|k: int| 0 <= k < lines.len() implies !is_uuid_line(
                        #[trigger] lines[k],
                    ) by {
                        if k < last {
                            assert(lines[k] == front[k]);
                        }
                    }
                },
            }
        }
    }
}

/// The third part of a line that begins with "USN: uuid:" is what follows that beginning up to the next
/// colon, or to the end.
proof fn lemma_third_part(line: Seq<u8>, e: int)
    requires
        usn_prefix().is_prefix_of(line),
        10 <= e <= line.len(),
        e == line.len() || line[e] == 58,
        forall|k: int| 10 <= k < e ==> #[trigger] line[k] != 58,
    ensures
        split(line, COLON)[2] == line.subrange(10, e),
{
    let pieces = split(line, 58u8);
    assert forall|k: int| 0 <= k < 10 implies #[trigger] line[k] == usn_prefix()[k] by {
        assert(line.take(10)[k] == usn_prefix()[k]);
    }
    assert(is_piece(line, 58u8, 0, 3));
    assert(is_piece(line, 58u8, 4, 9));
    assert(is_piece(line, 58u8, 10, e));
    let a = lemma_is_piece(line, 58u8, 0, 3);
    let b = lemma_is_piece(line, 58u8, 4, 9);
    let c = lemma_is_piece(line, 58u8, 10, e);
    if a > 0 {
        lemma_starts_grow(pieces, 0, a);
    }
    assert(a == 0);
    assert(start_of(pieces, 1) == 4) by {
        reveal_with_fuel(start_of, 2);
    }
    if b > 1 {
        lemma_starts_grow(pieces, 1, b);
    } else if b < 1 {
        assert(start_of(pieces, b) == 0);
    }
    assert(b == 1);
    assert(start_of(pieces, 2) == 10);
    if c > 2 {
        lemma_starts_grow(pieces, 2, c);
    } else if c < 2 {
        lemma_starts_grow(pieces, c, 2);
    }
}

/// The identifier of a device is what stands behind "USN: uuid:" in the last line that begins so, up to
/// the next colon or the end of the line. `i` and `j` are where that line begins and ends, `e` is where
/// the identifier ends.
pub proof fn law_uuid_stands_in_the_last_line_for_it(buf: Seq<u8>, i: int, j: int, e: int)
    requires
        is_piece(buf, 10u8, i, j),
        usn_prefix().is_prefix_of(buf.subrange(i, j)),
        forall|k: int, l: int| #[trigger]
            is_piece(buf, 10u8, k, l) && k > j ==> !usn_prefix().is_prefix_of(buf.subrange(k, l)),
        i + 10 <= e <= j,
        e == j || buf[e] == 58,
        forall|k: int| i + 10 <= k < e ==> #[trigger] buf[k] != 58,
    ensures
        uuid_in(split(buf, NEWLINE)) == Some(utf8_lossy(buf.subrange(i + 10, e))),
{
    let lines = split(buf, NEWLINE);
    let k = lemma_is_piece(buf, 10u8, i, j);
    let line = buf.subrange(i, j);
    lemma_uuid_line(line);
    lemma_last_uuid_line(lines);
    assert(is_uuid_line(lines[k]));
    let uuid = uuid_in(lines)->Some_0;
    let l = choose|l: int|
        0 <= l < lines.len() && is_uuid_line(#[trigger] lines[l]) && uuid == utf8_lossy(
            split(lines[l], COLON)[2],
        ) && forall|m: int| l < m < lines.len() ==> !is_uuid_line(#[trigger] lines[m]);
    if l > k {
        lemma_piece_lies(buf, 10u8, l);
        lemma_starts_grow(lines, k, l);
        lemma_uuid_line(lines[l]);
        assert(is_piece(
            buf,
            10u8,
            start_of(lines, l),
            start_of(lines, l) + lines[l].len(),
        ));
    }
    assert(l == k);
    assert forall|x: int| 10 <= x < e - i implies #[trigger] line[x] != 58 by {
        assert(buf[i + x] != 58);
    }
    lemma_third_part(line, e - i);
    assert(line.subrange(10, e - i) == buf.subrange(i + 10, e));
}

/// A device has no identifier exactly where none of the lines begins with "USN: uuid:".
pub proof fn law_uuid_is_missing_where_no_line_holds_it(buf: Seq<u8>)
    ensures
        uuid_in(split(buf, NEWLINE)) is None <==> forall|i: int, j: int| #[trigger]
            is_piece(buf, 10u8, i, j) ==> !usn_prefix().is_prefix_of(buf.subrange(i, j)),
{
    let lines = split(buf, NEWLINE);
    lemma_last_uuid_line(lines);
    if uuid_in(lines) is None {
        assert forall|i: int, j: int| #[trigger] is_piece(buf, 10u8, i, j) implies !usn_prefix()
            .is_prefix_of(buf.subrange(i, j)) by {
            let k = lemma_is_piece(buf, 10u8, i, j);
            lemma_uuid_line(lines[k]);
        }
    } else {
        let uuid = uuid_in(lines)->Some_0;
        let k = choose|k: int|
            0 <= k < lines.len() && is_uuid_line(#[trigger] lines[k]) && uuid == utf8_lossy(
                split(lines[k], COLON)[2],
            ) && forall|l: int| k < l < lines.len() ==> !is_uuid_line(#[trigger] lines[l]);
        lemma_piece_lies(buf, 10u8, k);
        lemma_uuid_line(lines[k]);
        let i = start_of(lines, k);
        assert(is_piece(buf, 10u8, i, i + lines[k].len()));
    }
}

/// An answer takes from the search just the time that it took to come.
pub proof fn law_answer_costs_its_time(
    state: ScanState,
    buf: Seq<u8>,
    addr: Seq<char>,
    elapsed: nat,
)
    requires
        elapsed <= state.remaining,
    ensures
        state.after_answer(buf, addr, elapsed).remaining + elapsed == state.remaining,
{
}

/// An answer from a TV whose address is new adds that TV at the end, with the address that the answer
/// came from and the identifier in it. Any other answer adds nothing.
pub proof fn law_answer_adds_a_new_tv_only(
    state: ScanState,
    buf: Seq<u8>,
    addr: Seq<char>,
    elapsed: nat,
)
    ensures
        ({
            let after = state.after_answer(buf, addr, elapsed).found;
            let known = exists|k: int|
                0 <= k < state.found.len() && (#[trigger] state.found[k]).addr == addr;
            if names_tv(split(buf, NEWLINE)) && !known {
                &&& after.len() == state.found.len() + 1
                &&& after.drop_last() == state.found
                &&& after.last().addr == addr
                &&& after.last().uuid == uuid_in(split(buf, NEWLINE))
            } else {
                after == state.found
            }
        }),
{
    let after = state.after_answer(buf, addr, elapsed).found;
    if after.len() > state.found.len() {
        assert(after.drop_last() == state.found);
    }
}

/// A TV that was found is known by its address and its identifier, where it has one.
pub proof fn law_found_tv_shows_both(addr: String, uuid: String)
    ensures
        (FoundTV { addr, uuid: Some(uuid) })@.addr == addr@,
        (FoundTV { addr, uuid: Some(uuid) })@.uuid == Some(uuid@),
        (FoundTV { addr, uuid: None })@.addr == addr@,
        (FoundTV { addr, uuid: None })@.uuid is None,
{
}

/// A list of TVs that were found is shown one by one, in order.
pub proof fn law_found_tvs_are_shown_one_by_one(tvs: Seq<FoundTV>)
    ensures
        found_views(tvs).len() == tvs.len(),
        forall|k: int| 0 <= k < tvs.len() ==> #[trigger] found_views(tvs)[k] == tvs[k]@,
{
}

/// Whether an address is known, and whether one occurs twice, is a matter of the addresses alone.
pub proof fn law_addresses_decide(tvs: Seq<FoundView>, addr: Seq<char>)
    ensures
        has_addr(tvs, addr) <==> tvs.map_values(|tv: FoundView| tv.addr).contains(addr),
        distinct_addrs(tvs) <==> tvs.map_values(|tv: FoundView| tv.addr).no_duplicates(),
{
    let addrs = tvs.map_values(|tv: FoundView| tv.addr);
    if has_addr(tvs, addr) {
        let i = choose|i: int| 0 <= i < tvs.len() && (#[trigger] tvs[i]).addr == addr;
        assert(addrs[i] == addr);
    }
    if addrs.contains(addr) {
        let i = choose|i: int| 0 <= i < addrs.len() && addrs[i] == addr;
        assert(tvs[i].addr == addr);
    }
    if distinct_addrs(tvs) {
        assert forall|i: int, j: int|
            0 <= i < addrs.len() && 0 <= j < addrs.len() && i != j implies addrs[i] != addrs[j] by {
            assert(tvs[i].addr == addrs[i] && tvs[j].addr == addrs[j]);
        }
    }
    if addrs.no_duplicates() {
        assert forall|i: int, j: int| 0 <= i < j < tvs.len() implies (#[trigger] tvs[i]).addr != (
        #[trigger] tvs[j]).addr by {
            assert(addrs[i] != addrs[j]);
        }
    }
}

} // verus!
