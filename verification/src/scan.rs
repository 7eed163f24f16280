//! Finding TVs in the network: what is asked, and what the answers say.
use vstd::prelude::*;
use vstd::slice::slice_subrange;
#[allow(unused_imports)]
use vstd::string::StringSliceAdditionalSpecFns;

use crate::lossy::lossy_text;
#[allow(unused_imports)]
use crate::lossy::utf8_lossy;

verus! {

/// What is sent to find TVs.
pub const SEARCH_REQUEST: &'static str = "M-SEARCH * HTTP/1.1\r\nHOST: 239.255.255.250:1900\r\nMAN: \"ssdp:discover\"\r\nMX: 2\r\nST: urn:schemas-upnp-org:device:MediaRenderer:1\r\n\r\n";

/// Where it is sent to.
pub const SEARCH_ADDR: &'static str = "239.255.255.250:1900";

/// How many bytes of an answer are received at most.
pub const RECV_BUFFER_LEN: usize = 2048;

/// The byte that lines end with.
pub const NEWLINE: u8 = 10;

/// The byte that the parts of a line are separated by.
pub const COLON: u8 = 58;

/// The pieces of a byte sequence between the bytes `sep`. There is always at least one piece.
pub open spec fn split(bytes: Seq<u8>, sep: u8) -> Seq<Seq<u8>>
    decreases bytes.len(),
{
    if bytes.len() == 0 {
        seq![Seq::empty()]
    } else {
        let front = split(bytes.drop_last(), sep);
        if bytes.last() == sep {
            front.push(Seq::empty())
        } else {
            front.update(front.len() - 1, front.last().push(bytes.last()))
        }
    }
}

/// The bytes of a text in ASCII.
pub open spec fn ascii(text: Seq<char>) -> Seq<u8> {
    Seq::new(text.len(), |i: int| text[i] as u8)
}

/// Whether `part` occurs in `text` without interruption.
pub open spec fn occurs_in(part: Seq<char>, text: Seq<char>) -> bool {
    exists|i: int| #[trigger] occurs_at(part, text, i)
}

/// Whether `part` occurs in `text` from position `i` on.
pub open spec fn occurs_at(part: Seq<char>, text: Seq<char>, i: int) -> bool {
    0 <= i && i + part.len() <= text.len() && text.subrange(i, i + part.len()) == part
}

/// Whether a line says that the answer comes from a TV.
pub open spec fn is_tv_line(line: Seq<u8>) -> bool {
    ascii("Server:"@).is_prefix_of(line) && occurs_in("LGE WebOS TV"@, utf8_lossy(line))
}

/// Whether a line holds the identifier of the device.
pub open spec fn is_uuid_line(line: Seq<u8>) -> bool {
    ascii("USN: uuid:"@).is_prefix_of(line)
}

/// Whether any of the lines says that the answer comes from a TV.
pub open spec fn names_tv(lines: Seq<Seq<u8>>) -> bool {
    exists|i: int| 0 <= i < lines.len() && is_tv_line(#[trigger] lines[i])
}

/// The identifier of the device: the third part of the last line that holds one.
pub open spec fn uuid_in(lines: Seq<Seq<u8>>) -> Option<Seq<char>>
    decreases lines.len(),
{
    if lines.len() == 0 {
        None
    } else if is_uuid_line(lines.last()) {
        Some(utf8_lossy(split(lines.last(), COLON)[2]))
    } else {
        uuid_in(lines.drop_last())
    }
}

/// The text in an optional string.
pub open spec fn optional_text(s: Option<String>) -> Option<Seq<char>> {
    match s {
        Some(text) => Some(text@),
        None => None,
    }
}

fn starts_with(bytes: &[u8], prefix: &[u8]) -> (result: bool)
    ensures
        result == prefix@.is_prefix_of(bytes@),
{
    if prefix.len() > bytes.len() {
        return false;
    }
    let mut i: usize = 0;
    while i < prefix.len()
        invariant
            i <= prefix@.len() <= bytes@.len(),
            prefix@.take(i as int) == bytes@.take(i as int),
        decreases prefix@.len() - i,
    {
        if bytes[i] != prefix[i] {
            assert(bytes@.take(prefix@.len() as int)[i as int] != prefix@[i as int]);
            return false;
        }
        assert(prefix@.take(i + 1) == prefix@.take(i as int).push(prefix@[i as int]));
        assert(bytes@.take(i + 1) == bytes@.take(i as int).push(bytes@[i as int]));
        i += 1;
    }
    assert(prefix@.take(i as int) == prefix@);
    true
}

fn chars_of(text: &str) -> (chars: Vec<char>)
    ensures
        chars@ == text@,
{
    let mut chars: Vec<char> = Vec::new();
    for c in it: text.chars()
        invariant
            it.seq() == text@,
            chars@ == text@.take(it.index() as int),
    {
        chars.push(c);
        assert(text@.take(it.index() + 1) == text@.take(it.index() as int).push(c));
    }
    assert(text@.take(text@.len() as int) == text@);
    chars
}

/// Whether `part` occurs in `text` without interruption.
fn contains_text(text: &str, part: &str) -> (result: bool)
    ensures
        result == occurs_in(part@, text@),
{
    let text_chars = chars_of(text);
    let part_chars = chars_of(part);
    let n = part_chars.len();
    if n > text_chars.len() {
        return false;
    }
    let mut i: usize = 0;
    while i <= text_chars.len() - n
        invariant
            n == part@.len(),
            n <= text@.len(),
            text_chars@ == text@,
            part_chars@ == part@,
            i <= text@.len() - n + 1,
            forall|k: int| 0 <= k < i ==> !(#[trigger] occurs_at(part@, text@, k)),
        decreases text@.len() - n + 1 - i,
    {
        let mut j: usize = 0;
        while j < n && text_chars[i + j] == part_chars[j]
            invariant
                n == part@.len(),
                i + n <= text_chars.len(),
                text_chars@ == text@,
                part_chars@ == part@,
                j <= n,
                forall|k: int| 0 <= k < j ==> #[trigger] part@[k] == text@[i + k],
            decreases n - j,
        {
            j += 1;
        }
        if j == n {
            assert(text@.subrange(i as int, i + n) == part@);
            assert(occurs_at(part@, text@, i as int));
            return true;
        }
        assert(text@.subrange(i as int, i + n)[j as int] == text@[i + j]);
        assert(!occurs_at(part@, text@, i as int));
        i += 1;
    }
    false
}

/// Whether the text of a line names the TV's operating system.
pub fn names_webos(text: &str) -> (result: bool)
    ensures
        result == occurs_in("LGE WebOS TV"@, text@),
{
    contains_text(text, "LGE WebOS TV")
}

/// The `n`-th of the pieces between the bytes `sep`, the first being the 0th.
fn piece(bytes: &[u8], sep: u8, n: usize) -> (result: Option<Vec<u8>>)
    ensures
        match result {
            Some(found) => n < split(bytes@, sep).len() && found@ == split(bytes@, sep)[n as int],
            None => n >= split(bytes@, sep).len(),
        },
{
    let mut count: usize = 0;
    let mut found: Vec<u8> = Vec::new();
    let mut i: usize = 0;
    while i < bytes.len()
        invariant
            i <= bytes@.len(),
            count <= i,
            split(bytes@.take(i as int), sep).len() == count + 1,
            n <= count ==> found@ == split(bytes@.take(i as int), sep)[n as int],
            n > count ==> found@.len() == 0,
        decreases bytes@.len() - i,
    {
        assert(bytes@.take(i + 1).drop_last() == bytes@.take(i as int));
        assert(bytes@.take(i + 1).last() == bytes@[i as int]);
        if bytes[i] == sep {
            count += 1;
        } else if count == n {
            found.push(bytes[i]);
        }
        i += 1;
    }
    assert(bytes@.take(i as int) == bytes@);
    if n <= count {
        Some(found)
    } else {
        None
    }
}

/// Whether a line says that the answer comes from a TV.
fn line_names_tv(line: &[u8]) -> (result: bool)
    ensures
        result == is_tv_line(line@),
{
    broadcast use vstd::string::is_ascii_spec_bytes;

    proof {
        reveal_strlit("Server:");
        assert("Server:".is_ascii());
        assert("Server:".spec_bytes() == ascii("Server:"@));
    }
    starts_with(line, "Server:".as_bytes()) && names_webos(lossy_text(line).as_str())
}

/// The identifier of the device, where the line holds one.
fn line_uuid(line: &[u8]) -> (result: Option<String>)
    ensures
        match result {
            Some(uuid) => is_uuid_line(line@) && uuid@ == utf8_lossy(split(line@, COLON)[2]),
            None => !is_uuid_line(line@),
        },
{
    broadcast use vstd::string::is_ascii_spec_bytes;

    proof {
        reveal_strlit("USN: uuid:");
        assert("USN: uuid:".is_ascii());
        assert("USN: uuid:".spec_bytes() == ascii("USN: uuid:"@));
    }
    if starts_with(line, "USN: uuid:".as_bytes()) {
        proof {
            lemma_uuid_line_has_three_parts(line@);
        }
        match piece(line, COLON, 2) {
            Some(part) => Some(lossy_text(part.as_slice())),
            None => None,
        }
    } else {
        None
    }
}

/// Splitting what follows a prefix leaves no fewer pieces.
proof fn lemma_split_grows(bytes: Seq<u8>, sep: u8, k: int)
    requires
        0 <= k <= bytes.len(),
    ensures
        split(bytes, sep).len() >= split(bytes.take(k), sep).len(),
    decreases bytes.len() - k,
{
    if k < bytes.len() {
        lemma_split_grows(bytes, sep, k + 1);
        assert(bytes.take(k + 1).drop_last() == bytes.take(k));
    } else {
        assert(bytes.take(k) == bytes);
    }
}

/// A line that holds the identifier of a device has at least two colons, so at least three parts.
proof fn lemma_uuid_line_has_three_parts(line: Seq<u8>)
    requires
        is_uuid_line(line),
    ensures
        split(line, COLON).len() >= 3,
{
    let prefix = ascii("USN: uuid:"@);
    reveal_strlit("USN: uuid:");
    lemma_split_grows(line, COLON, 10);
    lemma_split_grows(line.take(9), COLON, 4);
    lemma_split_grows(line.take(3), COLON, 0);
    assert(line.take(10) == prefix);
    assert(prefix[3] == COLON && prefix[9] == COLON);
    assert(line[3] == line.take(10)[3] && line[9] == line.take(10)[9]);
    assert(line.take(9).take(4) == line.take(4));
    assert(line.take(10).drop_last() == line.take(9));
    assert(line.take(4).drop_last() == line.take(3));
    assert(line.take(3).take(0) == Seq::<u8>::empty());
}

/// Reads an answer: whether it comes from a TV, and the identifier of the device.
///
/// `buf` is the whole receive buffer.
pub fn read_answer(buf: &[u8]) -> (out: (bool, Option<String>))
    ensures
        out.0 == names_tv(split(buf@, NEWLINE)),
        optional_text(out.1) == uuid_in(split(buf@, NEWLINE)),
{
    let mut found = false;
    let mut uuid: Option<String> = None;
    let mut start: usize = 0;
    let mut i: usize = 0;
    let ghost mut done: Seq<Seq<u8>> = Seq::empty();
    assert(buf@.take(0) == Seq::<u8>::empty());
    assert(split(Seq::empty(), NEWLINE) == done.push(buf@.subrange(0, 0)));
    loop
        invariant
            start <= i <= buf@.len(),
            split(buf@.take(i as int), NEWLINE) == done.push(buf@.subrange(start as int, i as int)),
            found == names_tv(done),
            optional_text(uuid) == uuid_in(done),
        decreases buf@.len() - i,
    {
        if i == buf.len() || buf[i] == NEWLINE {
            let line = slice_subrange(buf, start, i);
            if line_names_tv(line) {
                found = true;
            }
            if let Some(id) = line_uuid(line) {
                uuid = Some(id);
            }
            proof {
                lemma_lines_push(done, line@);
                done = done.push(line@);
            }
            if i == buf.len() {
                assert(buf@.take(i as int) == buf@);
                return (found, uuid);
            }
            start = i + 1;
            assert(buf@.subrange(start as int, i + 1) == Seq::<u8>::empty());
        } else {
            assert(buf@.subrange(start as int, i + 1) == buf@.subrange(start as int, i as int).push(
                buf@[i as int],
            ));
        }
        assert(buf@.take(i + 1).drop_last() == buf@.take(i as int));
        i += 1;
    }
}

/// What one more line adds.
proof fn lemma_lines_push(lines: Seq<Seq<u8>>, line: Seq<u8>)
    ensures
        names_tv(lines.push(line)) == (names_tv(lines) || is_tv_line(line)),
        uuid_in(lines.push(line)) == if is_uuid_line(line) {
            Some(utf8_lossy(split(line, COLON)[2]))
        } else {
            uuid_in(lines)
        },
{
    let more = lines.push(line);
    assert(more.drop_last() == lines);
    if names_tv(lines) {
        let i = choose|i: int| 0 <= i < lines.len() && is_tv_line(#[trigger] lines[i]);
        assert(more[i] == lines[i]);
    }
    if is_tv_line(line) {
        assert(more[lines.len() as int] == line);
    }
}

/// A TV that was found.
#[derive(Debug)]
pub struct FoundTV {
    pub addr: String,
    pub uuid: Option<String>,
}

/// What a `FoundTV` says.
#[verifier::ext_equal]
pub struct FoundView {
    pub addr: Seq<char>,
    pub uuid: Option<Seq<char>>,
}

impl View for FoundTV {
    type V = FoundView;

    open spec fn view(&self) -> FoundView {
        FoundView { addr: self.addr@, uuid: optional_text(self.uuid) }
    }
}

/// What each of the TVs says.
pub open spec fn found_views(tvs: Seq<FoundTV>) -> Seq<FoundView> {
    tvs.map_values(|tv: FoundTV| tv@)
}

/// Whether one of the TVs has the address `addr`.
pub open spec fn has_addr(tvs: Seq<FoundView>, addr: Seq<char>) -> bool {
    exists|i: int| 0 <= i < tvs.len() && (#[trigger] tvs[i]).addr == addr
}

/// No address occurs twice.
pub open spec fn distinct_addrs(tvs: Seq<FoundView>) -> bool {
    forall|i: int, j: int|
        0 <= i < j < tvs.len() ==> (#[trigger] tvs[i]).addr != (#[trigger] tvs[j]).addr
}

/// A search for TVs.
#[verifier::ext_equal]
pub struct ScanState {
    /// How much longer it goes on, in nanoseconds.
    pub remaining: nat,
    /// What was found, in the order in which the answers came.
    pub found: Seq<FoundView>,
}

impl ScanState {
    /// A TV is noted when it answers for the first time.
    pub open spec fn after_tv(self, tv: FoundView) -> ScanState {
        if has_addr(self.found, tv.addr) {
            self
        } else {
            ScanState { found: self.found.push(tv), ..self }
        }
    }

    /// An answer that took `elapsed` nanoseconds to come leaves that much less time. It counts where
    /// it comes from a TV.
    pub open spec fn after_answer(
        self,
        buf: Seq<u8>,
        addr: Seq<char>,
        elapsed: nat,
    ) -> ScanState {
        let lines = split(buf, NEWLINE);
        let later = ScanState { remaining: (self.remaining - elapsed) as nat, ..self };
        if names_tv(lines) {
            later.after_tv(FoundView { addr, uuid: uuid_in(lines) })
        } else {
            later
        }
    }
}

/// What came of the wait for an answer.
///
/// `E` is what can go wrong with the socket.
#[derive(Debug)]
pub enum Received<E> {
    /// An answer came from the address after so many nanoseconds.
    Answer(String, u128),
    /// No answer came in the time that was left.
    TimedOut,
    /// The socket failed.
    Failed(E),
}

/// How a search goes on.
pub enum ScanStep<E> {
    /// It waits for the next answer.
    Waiting(Scan),
    /// It is over.
    Over(Result<Vec<FoundTV>, E>),
}

/// A search for TVs.
pub struct Scan {
    remaining: u128,
    found_tvs: Vec<FoundTV>,
}

impl View for Scan {
    type V = ScanState;

    closed spec fn view(&self) -> ScanState {
        ScanState { remaining: self.remaining as nat, found: found_views(self.found_tvs@) }
    }
}

impl Scan {
    /// A search that goes on for `deadline` nanoseconds.
    pub fn new(deadline: u128) -> (scan: Scan)
        ensures
            scan@ == (ScanState { remaining: deadline as nat, found: Seq::empty() }),
            distinct_addrs(scan@.found),
    {
        let scan = Scan { remaining: deadline, found_tvs: Vec::new() };
        assert(scan@.found == Seq::<FoundView>::empty());
        scan
    }

    /// How much longer the search goes on, in nanoseconds.
    pub fn remaining(&self) -> (nanos: u128)
        ensures
            nanos == self@.remaining,
    {
        self.remaining
    }

    /// Notes a TV that answered.
    pub fn note(&mut self, addr: String, uuid: Option<String>)
        requires
            distinct_addrs(old(self)@.found),
        ensures
            final(self)@ == old(self)@.after_tv(
                FoundView { addr: addr@, uuid: optional_text(uuid) },
            ),
            distinct_addrs(final(self)@.found),
    {
        let ghost before = self@;
        let mut i: usize = 0;
        while i < self.found_tvs.len()
            invariant
                self@ == before,
                before == old(self)@,
                distinct_addrs(before.found),
                i <= self.found_tvs@.len(),
                forall|k: int| 0 <= k < i ==> (#[trigger] before.found[k]).addr != addr@,
            decreases self.found_tvs@.len() - i,
        {
            assert(before.found[i as int].addr == self.found_tvs@[i as int].addr@);
            if self.found_tvs[i].addr == addr {
                assert(has_addr(before.found, addr@));
                return;
            }
            i += 1;
        }
        assert(!has_addr(before.found, addr@));
        let ghost tv = FoundView { addr: addr@, uuid: optional_text(uuid) };
        self.found_tvs.push(FoundTV { addr, uuid });
        assert(self@.found == before.found.push(tv));
    }

    /// Takes in an answer from the address `addr` that took `elapsed` nanoseconds to come.
    ///
    /// `buf` is the whole receive buffer.
    pub fn on_answer(&mut self, buf: &[u8], addr: String, elapsed: u128)
        requires
            distinct_addrs(old(self)@.found),
            elapsed <= old(self)@.remaining,
        ensures
            final(self)@ == old(self)@.after_answer(buf@, addr@, elapsed as nat),
            distinct_addrs(final(self)@.found),
    {
        self.remaining = self.remaining - elapsed;
        let (found, uuid) = read_answer(buf);
        if found {
            self.note(addr, uuid);
        }
    }

    /// Moves on after the wait for an answer. `buf` is the whole receive buffer.
    ///
    /// An answer is taken in. Where no more come in time the search is over, with what was found. A
    /// socket that fails ends the search with the error, whatever was found.
    pub fn step<E>(self, buf: &[u8], received: Received<E>) -> (next: ScanStep<E>)
        requires
            distinct_addrs(self@.found),
            received matches Received::Answer(_, elapsed) ==> elapsed <= self@.remaining,
        ensures
            match received {
                Received::Answer(addr, elapsed) => {
                    &&& next matches ScanStep::Waiting(scan)
                    &&& scan@ == self@.after_answer(buf@, addr@, elapsed as nat)
                    &&& distinct_addrs(scan@.found)
                },
                Received::TimedOut => {
                    &&& next matches ScanStep::Over(Ok(tvs))
                    &&& found_views(tvs@) == self@.found
                },
                Received::Failed(e) => next == ScanStep::Over(Err::<Vec<FoundTV>, E>(e)),
            },
    {
        match received {
            Received::Answer(addr, elapsed) => {
                let mut scan = self;
                scan.on_answer(buf, addr, elapsed);
                ScanStep::Waiting(scan)
            },
            Received::TimedOut => ScanStep::Over(Ok(self.finish())),
            Received::Failed(e) => ScanStep::Over(Err(e)),
        }
    }

    /// What was found.
    pub fn finish(self) -> (tvs: Vec<FoundTV>)
        ensures
            found_views(tvs@) == self@.found,
    {
        self.found_tvs
    }
}

/// However the answers come, what was found before stays as it is, and no address is noted twice.
pub proof fn law_found_tvs_stay(state: ScanState, buf: Seq<u8>, addr: Seq<char>, elapsed: nat)
    requires
        distinct_addrs(state.found),
    ensures
        state.found.is_prefix_of(state.after_answer(buf, addr, elapsed).found),
        distinct_addrs(state.after_answer(buf, addr, elapsed).found),
{
}

/// A TV that answers is found, and answering again changes nothing but the time that is left.
pub proof fn law_answering_tv_is_found_once(
    state: ScanState,
    buf: Seq<u8>,
    addr: Seq<char>,
    elapsed: nat,
    again: Seq<u8>,
    elapsed_again: nat,
)
    requires
        names_tv(split(buf, NEWLINE)),
    ensures
        has_addr(state.after_answer(buf, addr, elapsed).found, addr),
        state.after_answer(buf, addr, elapsed).after_answer(again, addr, elapsed_again).found
            == state.after_answer(buf, addr, elapsed).found,
{
    let after = state.after_answer(buf, addr, elapsed).found;
    if !has_addr(state.found, addr) {
        assert(after[state.found.len() as int].addr == addr);
    }
}

/// An answer to a search: the receive buffer, where it came from, and how long it took to come.
pub struct Heard {
    pub buf: Seq<u8>,
    pub addr: Seq<char>,
    pub elapsed: nat,
}

impl Heard {
    /// Whether the answer comes from a TV.
    pub open spec fn is_tv(self) -> bool {
        names_tv(split(self.buf, NEWLINE))
    }

    /// The TV that the answer comes from.
    pub open spec fn tv(self) -> FoundView {
        FoundView { addr: self.addr, uuid: uuid_in(split(self.buf, NEWLINE)) }
    }
}

/// A search of `deadline` nanoseconds after all of its answers so far.
pub open spec fn search_after(deadline: nat, answers: Seq<Heard>) -> ScanState
    decreases answers.len(),
{
    if answers.len() == 0 {
        ScanState { remaining: deadline, found: Seq::empty() }
    } else {
        let last = answers.last();
        search_after(deadline, answers.drop_last()).after_answer(last.buf, last.addr, last.elapsed)
    }
}

/// How long all of the answers took to come.
pub open spec fn total_elapsed(answers: Seq<Heard>) -> nat
    decreases answers.len(),
{
    if answers.len() == 0 {
        0
    } else {
        total_elapsed(answers.drop_last()) + answers.last().elapsed
    }
}

/// Whether one of the answers comes from a TV at the address `addr`.
pub open spec fn heard_from(answers: Seq<Heard>, addr: Seq<char>) -> bool {
    exists|i: int|
        0 <= i < answers.len() && (#[trigger] answers[i]).is_tv() && answers[i].addr == addr
}

/// Whether the answer number `i` is the first from its address that comes from a TV.
pub open spec fn is_first(answers: Seq<Heard>, i: int) -> bool {
    &&& 0 <= i < answers.len()
    &&& answers[i].is_tv()
    &&& forall|j: int| 0 <= j < i && (#[trigger] answers[j]).is_tv() ==> answers[j].addr
        != answers[i].addr
}

/// The numbers of the answers that are the first of a TV, in order.
pub open spec fn firsts(answers: Seq<Heard>) -> Seq<int>
    decreases answers.len(),
{
    if answers.len() == 0 {
        Seq::empty()
    } else {
        let before = firsts(answers.drop_last());
        if is_first(answers, answers.len() - 1) {
            before.push(answers.len() - 1)
        } else {
            before
        }
    }
}

/// `firsts` names each first answer of a TV once, in the order in which they came.
pub proof fn law_firsts_are_in_order(answers: Seq<Heard>)
    ensures
        forall|k: int, l: int|
            0 <= k < l < firsts(answers).len() ==> #[trigger] firsts(answers)[k] < #[trigger] firsts(
                answers,
            )[l],
        forall|k: int|
            0 <= k < firsts(answers).len() ==> is_first(answers, #[trigger] firsts(answers)[k]),
        forall|i: int| #[trigger] is_first(answers, i) ==> firsts(answers).contains(i),
    decreases answers.len(),
{
    if answers.len() > 0 {
        let front = answers.drop_last();
        let before = firsts(front);
        let after = firsts(answers);
        law_firsts_are_in_order(front);
        assert forall|i: int| 0 <= i < front.len() implies #[trigger] is_first(answers, i)
            == is_first(front, i) by {
            assert forall|j: int| 0 <= j <= i implies #[trigger] answers[j] == front[j] by {}
        }
        assert forall|k: int| 0 <= k < after.len() implies is_first(answers, #[trigger] after[k]) by {
            if k < before.len() {
                assert(after[k] == before[k]);
                assert(is_first(front, before[k]));
            }
        }
        assert forall|i: int| #[trigger] is_first(answers, i) implies after.contains(i) by {
            if i < front.len() {
                assert(is_first(front, i));
                let k = choose|k: int| 0 <= k < before.len() && before[k] == i;
                assert(after[k] == i);
            } else {
                assert(after[before.len() as int] == i);
            }
        }
    }
}

/// What a whole search finds: the TVs by their first answers, in the order in which these came. No
/// address is found twice, and one is found exactly where one of its answers comes from a TV. The time
/// that is left is the deadline less what all the answers took.
pub proof fn law_what_a_search_finds(deadline: nat, answers: Seq<Heard>)
    requires
        total_elapsed(answers) <= deadline,
    ensures
        ({
            let after = search_after(deadline, answers);
            &&& after.found == firsts(answers).map_values(|i: int| answers[i].tv())
            &&& distinct_addrs(after.found)
            &&& forall|addr: Seq<char>| #[trigger]
                has_addr(after.found, addr) <==> heard_from(answers, addr)
            &&& after.remaining == deadline - total_elapsed(answers)
        }),
    decreases answers.len(),
{
    let after = search_after(deadline, answers);
    if answers.len() > 0 {
        let front = answers.drop_last();
        let last = answers.last();
        let before = search_after(deadline, front);
        law_what_a_search_finds(deadline, front);
        law_firsts_are_in_order(front);
        assert forall|k: int| 0 <= k < firsts(front).len() implies answers[#[trigger] firsts(
            front,
        )[k]] == front[firsts(front)[k]] by {
            assert(is_first(front, firsts(front)[k]));
        }
        assert forall|addr: Seq<char>|
            heard_from(answers, addr) == (heard_from(front, addr) || (last.is_tv() && last.addr
                == addr)) by {
            if heard_from(front, addr) {
                let i = choose|i: int|
                    0 <= i < front.len() && (#[trigger] front[i]).is_tv() && front[i].addr == addr;
                assert(answers[i] == front[i]);
            }
            if last.is_tv() && last.addr == addr {
                assert(answers[front.len() as int] == last);
            }
            if heard_from(answers, addr) {
                let i = choose|i: int|
                    0 <= i < answers.len() && (#[trigger] answers[i]).is_tv() && answers[i].addr
                        == addr;
                if i < front.len() {
                    assert(front[i] == answers[i]);
                }
            }
        }
        assert(is_first(answers, front.len() as int) == (last.is_tv() && !heard_from(
            front,
            last.addr,
        ))) by {
            assert forall|j: int| 0 <= j < front.len() implies #[trigger] answers[j]
                == front[j] by {}
        }
        assert(has_addr(before.found, last.addr) == heard_from(front, last.addr));
        if last.is_tv() && !heard_from(front, last.addr) {
            assert(after.found == before.found.push(last.tv()));
            assert forall|addr: Seq<char>| has_addr(after.found, addr) == (has_addr(
                before.found,
                addr,
            ) || addr == last.addr) by {
                if has_addr(before.found, addr) {
                    let i = choose|i: int|
                        0 <= i < before.found.len() && (#[trigger] before.found[i]).addr == addr;
                    assert(after.found[i] == before.found[i]);
                }
                if addr == last.addr {
                    assert(after.found[before.found.len() as int].addr == addr);
                }
            }
        } else {
            assert(after.found == before.found);
        }
        assert(after.found == firsts(answers).map_values(|i: int| answers[i].tv()));
    } else {
        assert(after.found == firsts(answers).map_values(|i: int| answers[i].tv()));
    }
}

} // verus!
