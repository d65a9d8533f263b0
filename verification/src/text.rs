//! Byte-string search and bounded formatting shared by the WiFi dialogues.
use vstd::prelude::*;
use vstd::string::StringSliceAdditionalSpecFns;

verus! {

/// `pat` occurs in `src` starting at index `i`.
pub open spec fn occurs_at(src: Seq<u8>, pat: Seq<u8>, i: int) -> bool {
    &&& 0 <= i
    &&& i + pat.len() <= src.len()
    &&& src.subrange(i, i + pat.len()) == pat
}

/// `pat` occurs somewhere in `src`.
pub open spec fn occurs(src: Seq<u8>, pat: Seq<u8>) -> bool {
    exists|i: int| occurs_at(src, pat, i)
}

/// `i` is the smallest index at which `pat` occurs in `src`.
pub open spec fn is_first_occurrence(src: Seq<u8>, pat: Seq<u8>, i: int) -> bool {
    &&& occurs_at(src, pat, i)
    &&& forall|j: int| 0 <= j < i ==> !occurs_at(src, pat, j)
}

/// The index of the first occurrence of `pat` in `src` (meaningful when `occurs(src, pat)`).
pub open spec fn first_index(src: Seq<u8>, pat: Seq<u8>) -> int {
    choose|i: int| is_first_occurrence(src, pat, i)
}

/// The first occurrence of a pattern is unique.
pub proof fn lemma_first_occurrence_unique(src: Seq<u8>, pat: Seq<u8>, i: int)
    requires
        is_first_occurrence(src, pat, i),
    ensures
        first_index(src, pat) == i,
{
    let j = first_index(src, pat);
    assert(is_first_occurrence(src, pat, j));
    if j < i {
        assert(!occurs_at(src, pat, j));
    } else if i < j {
        assert(!occurs_at(src, pat, i));
    }
}

/// Decimal digits (ASCII) of a natural number, most significant first, no leading zeros.
pub open spec fn decimal(n: nat) -> Seq<u8>
    decreases n,
{
    if n < 10 {
        seq![(n + 48) as u8]
    } else {
        decimal(n / 10).push((n % 10 + 48) as u8)
    }
}

/// A number below 10000 has at most four decimal digits.
pub proof fn lemma_decimal_len_le_4(n: nat)
    requires
        n < 10000,
    ensures
        1 <= decimal(n).len() <= 4,
{
    reveal_with_fuel(decimal, 5);
}

/// Ten to the power `k`.
pub open spec fn pow10(k: nat) -> nat
    decreases k,
{
    if k == 0 {
        1
    } else {
        10 * pow10((k - 1) as nat)
    }
}

/// A number below `10^k` (with `k >= 1`) has at most `k` decimal digits.
pub proof fn lemma_decimal_len(n: nat, k: nat)
    requires
        k >= 1,
        n < pow10(k),
    ensures
        decimal(n).len() <= k,
    decreases k,
{
    if n >= 10 {
        assert(k >= 2) by {
            if k == 1 {
                reveal_with_fuel(pow10, 2);
            }
        }
        assert(n / 10 < pow10((k - 1) as nat)) by {
            assert(pow10(k) == 10 * pow10((k - 1) as nat));
        }
        lemma_decimal_len(n / 10, (k - 1) as nat);
    }
}

/// A number of at least `10^k` has more than `k` decimal digits.
pub proof fn lemma_decimal_len_lower(n: nat, k: nat)
    requires
        n >= pow10(k),
    ensures
        decimal(n).len() >= k + 1,
    decreases k,
{
    if k > 0 {
        assert(pow10(k) == 10 * pow10((k - 1) as nat));
        assert(n / 10 >= pow10((k - 1) as nat));
        lemma_decimal_len_lower(n / 10, (k - 1) as nat);
    }
}

/// A 64-bit number has at most twenty decimal digits.
pub proof fn lemma_decimal_len_u64(n: u64)
    ensures
        decimal(n as nat).len() <= 20,
{
    reveal_with_fuel(pow10, 21);
    assert(pow10(20) == 100000000000000000000nat);
    lemma_decimal_len(n as nat, 20);
}

/// Every decimal digit is an ASCII digit.
pub proof fn lemma_decimal_digits(n: nat)
    ensures
        forall|i: int| 0 <= i < decimal(n).len() ==> 48 <= #[trigger] decimal(n)[i] <= 57,
        decimal(n).len() >= 1,
    decreases n,
{
    if n >= 10 {
        lemma_decimal_digits(n / 10);
    }
}

/// All bytes of `s` are ASCII digits.
pub open spec fn all_digits(s: Seq<u8>) -> bool {
    forall|i: int| 0 <= i < s.len() ==> 48 <= #[trigger] s[i] <= 57
}

/// The number that a text of ASCII digits reads as, most significant first.
pub open spec fn digits_value(s: Seq<u8>) -> nat
    decreases s.len(),
{
    if s.len() == 0 {
        0
    } else {
        digits_value(s.drop_last()) * 10 + (s.last() - 48) as nat
    }
}

/// Law: the decimal text of a number is a non-empty run of digits that reads back
/// as that number.
pub proof fn law_decimal_reads_back(n: nat)
    ensures
        all_digits(decimal(n)),
        decimal(n).len() >= 1,
        digits_value(decimal(n)) == n,
    decreases n,
{
    lemma_decimal_digits(n);
    let d = decimal(n);
    if n >= 10 {
        law_decimal_reads_back(n / 10);
        assert(d.drop_last() =~= decimal(n / 10));
        assert(d.last() == (n % 10 + 48) as u8);
        assert(digits_value(d) == (n / 10) * 10 + n % 10);
    } else {
        assert(d.drop_last() =~= Seq::<u8>::empty());
        assert(digits_value(d.drop_last()) == 0);
        assert(d.last() == (n + 48) as u8);
    }
}

fn matches_at(src: &[u8], pat: &[u8], i: usize) -> (r: bool)
    requires
        i + pat@.len() <= src@.len(),
    ensures
        r == occurs_at(src@, pat@, i as int),
{
    let src_len = src.len();
    let mut k: usize = 0;
    while k < pat.len()
        invariant
            src_len == src@.len(),
            k <= pat@.len(),
            i + pat@.len() <= src@.len(),
            src@.len() <= usize::MAX,
            forall|m: int| 0 <= m < k ==> src@[i + m] == pat@[m],
        decreases pat@.len() - k,
    {
        if src[i + k] != pat[k] {
            assert(src@.subrange(i as int, i + pat@.len())[k as int] != pat@[k as int]);
            return false;
        }
        k += 1;
    }
    assert(src@.subrange(i as int, i + pat@.len()) =~= pat@);
    true
}

/// The index of the first occurrence of `pattern` in `src`, if there is one.
pub fn index_of(src: &[u8], pattern: &[u8]) -> (r: Option<usize>)
    requires
        pattern@.len() > 0,
    ensures
        match r {
            Some(i) => is_first_occurrence(src@, pattern@, i as int),
            None => !occurs(src@, pattern@),
        },
{
    if pattern.len() > src.len() {
        assert forall|j: int| !occurs_at(src@, pattern@, j) by {}
        return None;
    }
    let last = src.len() - pattern.len();
    let mut i: usize = 0;
    while i <= last
        invariant
            last + pattern@.len() == src@.len(),
            pattern@.len() > 0,
            src@.len() <= usize::MAX,
            i <= last + 1,
            forall|j: int| 0 <= j < i ==> !occurs_at(src@, pattern@, j),
        decreases last + 1 - i,
    {
        if matches_at(src, pattern, i) {
            return Some(i);
        }
        i += 1;
    }
    assert forall|j: int| !occurs_at(src@, pattern@, j) by {
        if 0 <= j && j < i {
        }
    }
    None
}

/// Whether `pattern` occurs in `src`.
pub fn contains(src: &[u8], pattern: &[u8]) -> (r: bool)
    requires
        pattern@.len() > 0,
    ensures
        r == occurs(src@, pattern@),
{
    match index_of(src, pattern) {
        Some(i) => {
            assert(occurs_at(src@, pattern@, i as int));
            true
        },
        None => false,
    }
}

/// The position just past the first expected message found in `buf`, trying the
/// messages in order (the first message that occurs at all wins).
pub open spec fn expected_end(buf: Seq<u8>, pats: Seq<Seq<u8>>, k: int) -> Option<int>
    decreases pats.len() - k,
{
    if k < 0 || k >= pats.len() {
        None
    } else if occurs(buf, pats[k]) {
        Some(first_index(buf, pats[k]) + pats[k].len())
    } else {
        expected_end(buf, pats, k + 1)
    }
}

/// The byte strings of a list of messages.
pub open spec fn message_bytes(expected: Seq<&str>) -> Seq<Seq<u8>> {
    expected.map_values(|s: &str| s.spec_bytes())
}

/// Looks for the expected messages in what has been read so far: the end of the first
/// occurrence of the first message (in list order) that occurs, if any does.
pub fn find_expected(buf: &[u8], expected: &[&str]) -> (r: Option<usize>)
    requires
        forall|k: int| 0 <= k < expected@.len() ==> (#[trigger] expected@[k]).spec_bytes().len() > 0,
    ensures
        match r {
            Some(e) => expected_end(buf@, message_bytes(expected@), 0) == Some(e as int),
            None => expected_end(buf@, message_bytes(expected@), 0) is None,
        },
        r matches Some(e) ==> e <= buf@.len(),
{
    let buf_len = buf.len();
    let ghost pats = message_bytes(expected@);
    let mut k: usize = 0;
    while k < expected.len()
        invariant
            k <= expected@.len(),
            pats == message_bytes(expected@),
            buf_len == buf@.len(),
            pats.len() == expected@.len(),
            forall|m: int| 0 <= m < expected@.len() ==> (#[trigger] expected@[m]).spec_bytes().len() > 0,
            expected_end(buf@, pats, 0) == expected_end(buf@, pats, k as int),
        decreases expected@.len() - k,
    {
        let pat = expected[k].as_bytes();
        assert(pats[k as int] == pat@);
        match index_of(buf, pat) {
            Some(i) => {
                proof {
                    lemma_first_occurrence_unique(buf@, pat@, i as int);
                    assert(occurs_at(buf@, pat@, i as int));
                    assert(buf@.len() <= usize::MAX);
                }
                return Some(i + pat.len());
            },
            None => {},
        }
        k += 1;
    }
    None
}

/// A bounded byte buffer that text is written into; writing past its capacity
/// fails and keeps what fits.
pub struct WriteBuf {
    buf: Vec<u8>,
    count: usize,
}

/// What a write of `s` after `t` leaves in a buffer of capacity `cap`.
pub open spec fn bounded_append(t: Seq<u8>, s: Seq<u8>, cap: nat) -> Seq<u8> {
    if t.len() + s.len() <= cap {
        t + s
    } else {
        (t + s).take(cap as int)
    }
}

impl WriteBuf {
    /// The text written so far.
    pub closed spec fn text(&self) -> Seq<u8> {
        if self.count <= self.buf@.len() {
            self.buf@.take(self.count as int)
        } else {
            self.buf@
        }
    }

    /// How many bytes the buffer can hold.
    pub closed spec fn capacity(&self) -> nat {
        self.buf@.len()
    }

    /// An empty writer over `buf`; its capacity is the length of `buf`.
    pub fn new(buf: Vec<u8>) -> (w: WriteBuf)
        ensures
            w.text() == Seq::<u8>::empty(),
            w.capacity() == buf@.len(),
    {
        let w = WriteBuf { buf, count: 0 };
        assert(w.text() =~= Seq::<u8>::empty());
        w
    }

    /// Appends `s` byte by byte; fails as soon as the buffer is full.
    pub fn write_bytes(&mut self, s: &[u8]) -> (r: Result<(), ()>)
        ensures
            final(self).capacity() == old(self).capacity(),
            final(self).text() == bounded_append(old(self).text(), s@, old(self).capacity()),
            r is Ok <==> old(self).text().len() + s@.len() <= old(self).capacity(),
    {
        if self.count > self.buf.len() {
            self.count = self.buf.len();
            assert(self.buf@.take(self.buf@.len() as int) =~= self.buf@);
        }
        let ghost t0 = self.text();
        let mut i: usize = 0;
        while i < s.len()
            invariant
                i <= s@.len(),
                self.count <= self.buf@.len(),
                self.buf@.len() == old(self).capacity(),
                t0 == old(self).text(),
                t0.len() + i <= self.buf@.len(),
                self.count == t0.len() + i,
                self.text() == t0 + s@.take(i as int),
            decreases s@.len() - i,
        {
            if self.count >= self.buf.len() {
                assert(self.text() =~= (t0 + s@).take(self.buf@.len() as int));
                return Err(());
            }
            let ghost before = self.buf@;
            let c = self.count;
            self.buf.set(c, s[i]);
            self.count = c + 1;
            assert(self.buf@.take(c + 1) =~= before.take(c as int).push(s@[i as int]));
            assert(s@.take(i + 1) =~= s@.take(i as int).push(s@[i as int]));
            i += 1;
            assert(self.text() =~= t0 + s@.take(i as int));
        }
        assert(s@.take(s@.len() as int) =~= s@);
        Ok(())
    }

    /// Appends the bytes of `s`.
    pub fn write_str(&mut self, s: &str) -> (r: Result<(), ()>)
        ensures
            final(self).capacity() == old(self).capacity(),
            final(self).text() == bounded_append(old(self).text(), s.spec_bytes(), old(self).capacity()),
            r is Ok <==> old(self).text().len() + s.spec_bytes().len() <= old(self).capacity(),
    {
        self.write_bytes(s.as_bytes())
    }

    /// Appends the decimal digits of `n`.
    pub fn write_decimal(&mut self, n: u64) -> (r: Result<(), ()>)
        ensures
            final(self).capacity() == old(self).capacity(),
            final(self).text() == bounded_append(old(self).text(), decimal(n as nat), old(self).capacity()),
            r is Ok <==> old(self).text().len() + decimal(n as nat).len() <= old(self).capacity(),
    {
        let digits = decimal_bytes(n);
        self.write_bytes(digits.as_slice())
    }

    /// A copy of the text written so far.
    pub fn written(&self) -> (r: Vec<u8>)
        ensures
            r@ == self.text(),
    {
        let n = if self.count <= self.buf.len() { self.count } else { self.buf.len() };
        assert(self.buf@.take(self.buf@.len() as int) =~= self.buf@);
        let mut r: Vec<u8> = Vec::new();
        let mut i: usize = 0;
        while i < n
            invariant
                i <= n,
                n <= self.buf@.len(),
                self.text() == self.buf@.take(n as int),
                r@ == self.buf@.take(i as int),
            decreases n - i,
        {
            r.push(self.buf[i]);
            i += 1;
            assert(r@ =~= self.buf@.take(i as int));
        }
        r
    }
}

/// The decimal digits of `n`.
pub fn decimal_bytes(n: u64) -> (r: Vec<u8>)
    ensures
        r@ == decimal(n as nat),
    decreases n,
{
    if n < 10 {
        let mut r: Vec<u8> = Vec::new();
        r.push(n as u8 + 48);
        assert(r@ =~= decimal(n as nat));
        r
    } else {
        let mut r = decimal_bytes(n / 10);
        r.push((n % 10) as u8 + 48);
        r
    }
}

/// The buffer after a reply has been read into its start.
pub open spec fn merged(buf: Seq<u8>, reply: Seq<u8>) -> Seq<u8> {
    reply + buf.skip(reply.len() as int)
}

/// `reply` read over the start of `buf`: the buffer after `reply` was read into it.
pub fn merge(buf: &[u8], reply: &[u8]) -> (r: Vec<u8>)
    requires
        reply@.len() <= buf@.len(),
    ensures
        r@ == merged(buf@, reply@),
{
    let mut r: Vec<u8> = Vec::new();
    let mut i: usize = 0;
    while i < buf.len()
        invariant
            reply@.len() <= buf@.len(),
            i <= buf@.len(),
            r@.len() == i,
            forall|k: int| 0 <= k < i ==> #[trigger] r@[k] == merged(buf@, reply@)[k],
        decreases buf@.len() - i,
    {
        if i < reply.len() {
            r.push(reply[i]);
        } else {
            r.push(buf[i]);
        }
        i += 1;
    }
    assert(r@ =~= merged(buf@, reply@));
    r
}

/// Law: a bounded write keeps what was written and appends as much of the new
/// text as fits, never more than the capacity.
pub proof fn law_bounded_append_is_prefix(t: Seq<u8>, s: Seq<u8>, cap: nat)
    requires
        t.len() <= cap,
    ensures
        bounded_append(t, s, cap).len() <= cap,
        bounded_append(t, s, cap).len() == if t.len() + s.len() <= cap { t.len() + s.len() } else { cap },
        bounded_append(t, s, cap) == (t + s).take(bounded_append(t, s, cap).len() as int),
        bounded_append(t, s, cap).take(t.len() as int) == t,
{
    assert((t + s).take((t + s).len() as int) =~= t + s);
    assert(bounded_append(t, s, cap).take(t.len() as int) =~= t);
}

/// Law: reading a reply over a buffer keeps the buffer's length, gives the reply
/// at its start and leaves the rest as it was.
pub proof fn law_merge_keeps_rest(buf: Seq<u8>, reply: Seq<u8>)
    requires
        reply.len() <= buf.len(),
    ensures
        merged(buf, reply).len() == buf.len(),
        merged(buf, reply).take(reply.len() as int) == reply,
        merged(buf, reply).skip(reply.len() as int) == buf.skip(reply.len() as int),
{
    assert(merged(buf, reply).take(reply.len() as int) =~= reply);
    assert(merged(buf, reply).skip(reply.len() as int) =~= buf.skip(reply.len() as int));
}

} // verus!
