//! The global deterministic random number generator, with the record of
//! draws that checks two runs of one seed for determinism.

use vstd::prelude::*;
use rand::{Rng, RngCore, SeedableRng};
use crate::time::Duration;

verus! {

/// The outside type `rand_xoshiro::Xoshiro256PlusPlus`, opaque to Verus.
#[verifier::external_type_specification]
#[verifier::external_body]
pub struct ExXoshiro256PlusPlus(rand_xoshiro::Xoshiro256PlusPlus);

/// The outside type `ahash::RandomState`, opaque to Verus.
#[verifier::external_type_specification]
#[verifier::external_body]
pub struct ExAhashRandomState(ahash::RandomState);

/// The state `Xoshiro256PlusPlus::seed_from_u64` makes from `seed`.
pub uninterp spec fn xoshiro_seeded(seed: u64) -> rand_xoshiro::Xoshiro256PlusPlus;

/// The value `RngCore::next_u64` draws from state `s`, and the state after.
pub uninterp spec fn xoshiro_next_u64_of(s: rand_xoshiro::Xoshiro256PlusPlus) -> (u64, rand_xoshiro::Xoshiro256PlusPlus);

/// The value `RngCore::next_u32` draws from state `s`, and the state after.
pub uninterp spec fn xoshiro_next_u32_of(s: rand_xoshiro::Xoshiro256PlusPlus) -> (u32, rand_xoshiro::Xoshiro256PlusPlus);

/// The value `Rng::gen_range(lo..hi)` draws from state `s`, and the state after.
pub uninterp spec fn xoshiro_gen_range_of(s: rand_xoshiro::Xoshiro256PlusPlus, lo: u64, hi: u64) -> (u64, rand_xoshiro::Xoshiro256PlusPlus);

/// The value `Rng::gen_ratio(numerator, denominator)` draws from state `s`,
/// and the state after.
pub uninterp spec fn xoshiro_gen_ratio_of(s: rand_xoshiro::Xoshiro256PlusPlus, numerator: u32, denominator: u32) -> (bool, rand_xoshiro::Xoshiro256PlusPlus);

/// The byte `Rng::gen::<u8>` draws from state `s`.
pub uninterp spec fn xoshiro_peek_u8_of(s: rand_xoshiro::Xoshiro256PlusPlus) -> u8;

/// The `len` bytes `RngCore::fill_bytes` writes from state `s`, and the state after.
pub uninterp spec fn xoshiro_fill_bytes_of(s: rand_xoshiro::Xoshiro256PlusPlus, len: nat) -> (Seq<u8>, rand_xoshiro::Xoshiro256PlusPlus);

/// `Xoshiro256PlusPlus::seed_from_u64`: the generator seeded from `seed` by
/// SplitMix64, a pure function of the seed. The state itself is opaque; it
/// is named.
#[verifier::external_body]
fn xoshiro_seed_from_u64(seed: u64) -> (rng: rand_xoshiro::Xoshiro256PlusPlus)
    ensures
        rng == xoshiro_seeded(seed),
{
    rand_xoshiro::Xoshiro256PlusPlus::seed_from_u64(seed)
}

/// `RngCore::next_u64` of the generator: the next 64 bits. The value and the
/// state after depend on the state before alone, and are named.
#[verifier::external_body]
fn xoshiro_next_u64(rng: &mut rand_xoshiro::Xoshiro256PlusPlus) -> (r: u64)
    ensures
        (r, *final(rng)) == xoshiro_next_u64_of(*old(rng)),
{
    rng.next_u64()
}

/// `RngCore::next_u32` of the generator: the upper 32 bits of the next draw.
/// The value and the state after depend on the state before alone, and are
/// named.
#[verifier::external_body]
fn xoshiro_next_u32(rng: &mut rand_xoshiro::Xoshiro256PlusPlus) -> (r: u32)
    ensures
        (r, *final(rng)) == xoshiro_next_u32_of(*old(rng)),
{
    rng.next_u32()
}

/// `Rng::gen_range(lo..hi)` for `u64`: a value in `lo..hi`, as the rand
/// documentation promises; it panics on an empty range, excluded here. The
/// value and the state after depend on the state and the range alone, and
/// are named.
#[verifier::external_body]
fn xoshiro_gen_range(rng: &mut rand_xoshiro::Xoshiro256PlusPlus, lo: u64, hi: u64) -> (r: u64)
    requires
        lo < hi,
    ensures
        lo <= r < hi,
        (r, *final(rng)) == xoshiro_gen_range_of(*old(rng), lo, hi),
{
    rng.gen_range(lo..hi)
}

/// `Rng::gen_ratio(numerator, denominator)`: `true` with probability
/// `numerator / denominator`. The source (`Bernoulli::from_ratio`) makes it
/// always `false` for a zero numerator and always `true` when both are
/// equal; it panics when the ratio exceeds one or the denominator is zero,
/// excluded here. The value and the state after depend on the state and the
/// ratio alone, and are named.
#[verifier::external_body]
fn xoshiro_gen_ratio(rng: &mut rand_xoshiro::Xoshiro256PlusPlus, numerator: u32, denominator: u32) -> (r: bool)
    requires
        0 < denominator,
        numerator <= denominator,
    ensures
        numerator == 0 ==> !r,
        numerator == denominator ==> r,
        (r, *final(rng)) == xoshiro_gen_ratio_of(*old(rng), numerator, denominator),
{
    rng.gen_ratio(numerator, denominator)
}

/// `Rng::gen::<u8>` on a clone of the generator: the low byte of the next
/// 32-bit draw, without advancing the generator. The value depends on the
/// state alone, and is named.
#[verifier::external_body]
fn xoshiro_peek_u8(rng: &rand_xoshiro::Xoshiro256PlusPlus) -> (r: u8)
    ensures
        r == xoshiro_peek_u8_of(*rng),
{
    rng.clone().gen::<u8>()
}

/// `RngCore::fill_bytes`: overwrites `dest` with random bytes, keeping its
/// length. The bytes and the state after depend on the state before and the
/// length alone (`fill_bytes_via_next` overwrites every byte), and are named.
#[verifier::external_body]
fn xoshiro_fill_bytes(rng: &mut rand_xoshiro::Xoshiro256PlusPlus, dest: &mut Vec<u8>)
    ensures
        final(dest)@.len() == old(dest)@.len(),
        (final(dest)@, *final(rng)) == xoshiro_fill_bytes_of(*old(rng), old(dest)@.len()),
{
    rng.fill_bytes(dest.as_mut_slice())
}

/// The xor of the lowest `n` bytes of `x`.
pub open spec fn spec_xor_bytes(x: u128, n: nat) -> u8
    decreases n,
{
    if n == 0 {
        0
    } else {
        spec_xor_bytes(x, (n - 1) as nat) ^ ((x >> (8 * (n - 1)) as u128) as u8)
    }
}

/// Folds the sixteen bytes of `x` with xor.
pub fn hash_u128(x: u128) -> (h: u8)
    ensures
        h == spec_xor_bytes(x, 16),
{
    let mut acc: u8 = 0;
    let mut i: u32 = 0;
    while i < 16
        invariant
            i <= 16,
            acc == spec_xor_bytes(x, i as nat),
        decreases 16 - i,
    {
        acc = acc ^ ((x >> (8 * i)) as u8);
        i = i + 1;
    }
    acc
}

/// The value recorded for a draw: a byte of the generator's next output,
/// mixed with the simulated time (zero outside a simulation).
pub open spec fn spec_record_value(peek: u8, elapsed: Option<Duration>) -> u8 {
    peek ^ spec_xor_bytes(
        match elapsed {
            Some(d) => d.nanos as u128,
            None => 0u128,
        },
        16,
    )
}

/// The record after a draw made at time `at` that left the generator at
/// state `s`: if draws are logged or checked, the byte peeked from `s`,
/// mixed with the time, is logged or checked.
pub open spec fn spec_draw_record(r: DrawRecordView, s: rand_xoshiro::Xoshiro256PlusPlus, at: Option<Duration>) -> DrawRecordView {
    if r.log is Some || r.check is Some {
        spec_record(r, spec_record_value(xoshiro_peek_u8_of(s), at), at)
    } else {
        r
    }
}

/// Random log for determinism check.
#[derive(Clone, Debug, PartialEq, Eq)]
pub struct Log(pub Vec<u8>);

/// Where a run stops agreeing with the log it is checked against: the
/// simulated time of the draw, if there was one.
#[derive(Clone, Copy, Debug, PartialEq, Eq, Structural)]
pub struct NonDeterminism {
    pub at: Option<Duration>,
}

/// The record that makes two runs comparable: either a log that draws are
/// appended to, or a log that draws are checked against, and the first
/// disagreement found.
pub struct DrawRecord {
    log: Option<Vec<u8>>,
    check: Option<(Vec<u8>, usize)>,
    violation: Option<NonDeterminism>,
}

/// The abstract state of a [`DrawRecord`].
pub struct DrawRecordView {
    pub log: Option<Seq<u8>>,
    pub check: Option<(Seq<u8>, nat)>,
    pub violation: Option<NonDeterminism>,
}

/// The record after one draw whose recorded value is `v` at time `at`.
pub open spec fn spec_record(r: DrawRecordView, v: u8, at: Option<Duration>) -> DrawRecordView {
    let log = match r.log {
        Some(l) => Some(l.push(v)),
        None => None,
    };
    match r.check {
        Some((c, i)) => if i < c.len() && c[i as int] == v {
            DrawRecordView { log, check: Some((c, i + 1)), violation: r.violation }
        } else {
            DrawRecordView {
                log,
                check: Some((c, i)),
                violation: if r.violation is Some { r.violation } else { Some(NonDeterminism { at }) },
            }
        },
        None => DrawRecordView { log, check: None, violation: r.violation },
    }
}

impl View for DrawRecord {
    type V = DrawRecordView;

    closed spec fn view(&self) -> DrawRecordView {
        DrawRecordView {
            log: match self.log { Some(l) => Some(l@), None => None },
            check: match self.check { Some((c, i)) => Some((c@, i as nat)), None => None },
            violation: self.violation,
        }
    }
}

impl DrawRecord {
    /// Whether draws are being logged or checked.
    pub open spec fn active(&self) -> bool {
        self@.log is Some || self@.check is Some
    }

    /// The invariant: the check position never passes the end of the log.
    pub closed spec fn wf(&self) -> bool {
        match self.check {
            Some((c, i)) => i <= c.len(),
            None => true,
        }
    }

    /// A record that neither logs nor checks.
    pub fn new() -> (r: DrawRecord)
        ensures
            r.wf(),
            r@.log is None,
            r@.check is None,
            r@.violation is None,
    {
        DrawRecord { log: None, check: None, violation: None }
    }

    /// Records the draw value `v` made at time `at`.
    pub fn record(&mut self, v: u8, at: Option<Duration>)
        requires
            old(self).wf(),
        ensures
            final(self).wf(),
            final(self)@ == spec_record(old(self)@, v, at),
    {
        match &mut self.log {
            Some(l) => l.push(v),
            None => {},
        }
        let mut mismatch = false;
        match &mut self.check {
            Some((c, i)) => {
                if *i < c.len() && c[*i] == v {
                    *i = *i + 1;
                } else {
                    mismatch = true;
                }
            },
            None => {},
        }
        if mismatch && self.violation.is_none() {
            self.violation = Some(NonDeterminism { at });
        }
    }
}

/// The record after the draws with values `vs`, made at times `ats`, in order.
pub open spec fn spec_record_all(r: DrawRecordView, vs: Seq<u8>, ats: Seq<Option<Duration>>) -> DrawRecordView
    decreases vs.len(),
{
    if vs.len() == 0 {
        r
    } else {
        spec_record(spec_record_all(r, vs.drop_last(), ats.drop_last()), vs.last(), ats.last())
    }
}

/// A run that logs its draws writes down exactly their values, in order.
pub proof fn logging_keeps_every_draw(r: DrawRecordView, vs: Seq<u8>, ats: Seq<Option<Duration>>)
    requires
        r.log == Some(Seq::<u8>::empty()),
        r.check is None,
        ats.len() == vs.len(),
    ensures
        spec_record_all(r, vs, ats).log == Some(vs),
        spec_record_all(r, vs, ats).check is None,
        spec_record_all(r, vs, ats).violation == r.violation,
    decreases vs.len(),
{
    if vs.len() > 0 {
        logging_keeps_every_draw(r, vs.drop_last(), ats.drop_last());
        assert(vs.drop_last().push(vs.last()) == vs);
    }
}

/// Checking a run against the log of a run that drew the same values finds
/// no disagreement, and ends at the end of the log: a deterministic
/// simulation passes its own determinism check.
pub proof fn replaying_the_log_passes_the_check(r: DrawRecordView, vs: Seq<u8>, ats: Seq<Option<Duration>>)
    requires
        r.check == Some((vs, 0nat)),
        r.violation is None,
        ats.len() == vs.len(),
    ensures
        spec_record_all(r, vs, ats).violation is None,
        spec_record_all(r, vs, ats).check == Some((vs, vs.len())),
{
    replay_prefix(r, vs, ats, vs.len() as int);
    assert(vs.take(vs.len() as int) == vs);
    assert(ats.take(vs.len() as int) == ats);
}

proof fn replay_prefix(r: DrawRecordView, vs: Seq<u8>, ats: Seq<Option<Duration>>, n: int)
    requires
        r.check == Some((vs, 0nat)),
        r.violation is None,
        ats.len() == vs.len(),
        0 <= n <= vs.len(),
    ensures
        spec_record_all(r, vs.take(n), ats.take(n)).violation is None,
        spec_record_all(r, vs.take(n), ats.take(n)).check == Some((vs, n as nat)),
    decreases n,
{
    if n > 0 {
        replay_prefix(r, vs, ats, n - 1);
        assert(vs.take(n).drop_last() == vs.take(n - 1));
        assert(ats.take(n).drop_last() == ats.take(n - 1));
    }
}

/// Checking a run against a log finds the first draw that disagrees with
/// it, or that comes after the log has run out, and reports its time; later
/// draws do not change the report.
pub proof fn divergence_is_caught(
    r: DrawRecordView,
    log: Seq<u8>,
    vs: Seq<u8>,
    ats: Seq<Option<Duration>>,
    k: int,
)
    requires
        r.check == Some((log, 0nat)),
        r.violation is None,
        ats.len() == vs.len(),
        0 <= k < vs.len(),
        k <= log.len(),
        vs.take(k) == log.take(k),
        k == log.len() || vs[k] != log[k],
    ensures
        spec_record_all(r, vs, ats).violation == Some(NonDeterminism { at: ats[k] }),
{
    check_prefix(r, log, vs, ats, k);
    assert(vs.take(k + 1).drop_last() == vs.take(k));
    assert(ats.take(k + 1).drop_last() == ats.take(k));
    violation_stays(r, vs, ats, k, vs.len() as int);
    assert(vs.take(vs.len() as int) == vs);
    assert(ats.take(vs.len() as int) == ats);
}

/// While the values drawn agree with the log, checking finds nothing and
/// moves along the log.
proof fn check_prefix(r: DrawRecordView, log: Seq<u8>, vs: Seq<u8>, ats: Seq<Option<Duration>>, n: int)
    requires
        r.check == Some((log, 0nat)),
        r.violation is None,
        ats.len() == vs.len(),
        0 <= n <= vs.len(),
        n <= log.len(),
        vs.take(n) == log.take(n),
    ensures
        spec_record_all(r, vs.take(n), ats.take(n)).violation is None,
        spec_record_all(r, vs.take(n), ats.take(n)).check == Some((log, n as nat)),
    decreases n,
{
    if n > 0 {
        assert(vs.take(n - 1) =~= log.take(n - 1)) by {
            assert forall|i: int| 0 <= i < n - 1 implies #[trigger] vs.take(n - 1)[i] == log.take(n - 1)[i] by {
                assert(vs.take(n)[i] == log.take(n)[i]);
            }
        }
        check_prefix(r, log, vs, ats, n - 1);
        assert(vs.take(n).drop_last() == vs.take(n - 1));
        assert(ats.take(n).drop_last() == ats.take(n - 1));
        assert(vs.take(n)[n - 1] == log.take(n)[n - 1]);
    }
}

/// Once the first disagreement, at draw `k`, is recorded, it stays.
proof fn violation_stays(r: DrawRecordView, vs: Seq<u8>, ats: Seq<Option<Duration>>, k: int, n: int)
    requires
        ats.len() == vs.len(),
        0 <= k < n <= vs.len(),
        spec_record_all(r, vs.take(k + 1), ats.take(k + 1)).violation == Some(NonDeterminism { at: ats[k] }),
    ensures
        spec_record_all(r, vs.take(n), ats.take(n)).violation == Some(NonDeterminism { at: ats[k] }),
    decreases n,
{
    if n > k + 1 {
        violation_stays(r, vs, ats, k, n - 1);
        assert(vs.take(n).drop_last() == vs.take(n - 1));
        assert(ats.take(n).drop_last() == ats.take(n - 1));
    }
}

/// Global deterministic random number generator.
pub struct GlobalRng {
    seed: u64,
    rng: rand_xoshiro::Xoshiro256PlusPlus,
    record: DrawRecord,
    buggify: bool,
}

impl GlobalRng {
    /// The seed the generator was created with.
    pub closed spec fn spec_seed(&self) -> u64 {
        self.seed
    }

    /// Whether buggify is enabled.
    pub closed spec fn spec_buggify(&self) -> bool {
        self.buggify
    }

    /// The state of the generator, which decides every value drawn next.
    pub closed spec fn spec_stream(&self) -> rand_xoshiro::Xoshiro256PlusPlus {
        self.rng
    }

    /// The record of draws.
    pub closed spec fn spec_record(&self) -> DrawRecordView {
        self.record@
    }

    /// The invariant of the generator's record.
    pub closed spec fn wf(&self) -> bool {
        self.record.wf()
    }

    /// `self` is `before` after a draw made at time `at`: the draw is
    /// recorded from the state the generator moved to, and the seed and the
    /// buggify flag are kept.
    pub open spec fn drawn_from(&self, before: GlobalRng, at: Option<Duration>) -> bool {
        &&& self.wf()
        &&& self.spec_record() == spec_draw_record(before.spec_record(), self.spec_stream(), at)
        &&& self.spec_seed() == before.spec_seed()
        &&& self.spec_buggify() == before.spec_buggify()
    }

    /// Create a new generator using the given seed; buggify is disabled and
    /// draws are neither logged nor checked.
    pub fn new_with_seed(seed: u64) -> (g: GlobalRng)
        ensures
            g.wf(),
            g.spec_seed() == seed,
            !g.spec_buggify(),
            g.spec_record().log is None,
            g.spec_record().check is None,
            g.spec_record().violation is None,
            g.spec_stream() == xoshiro_seeded(seed),
    {
        GlobalRng {
            seed,
            rng: xoshiro_seed_from_u64(seed),
            record: DrawRecord::new(),
            buggify: false,
        }
    }

    /// The seed of this generator.
    pub fn seed(&self) -> (s: u64)
        ensures
            s == self.spec_seed(),
    {
        self.seed
    }

    /// Records a draw that was just made at simulated time `at`, if draws
    /// are logged or checked.
    fn after_draw(&mut self, at: Option<Duration>)
        requires
            old(self).wf(),
        ensures
            final(self).spec_stream() == old(self).spec_stream(),
            final(self).drawn_from(*old(self), at),
    {
        if self.record.log.is_some() || self.record.check.is_some() {
            let peek = xoshiro_peek_u8(&self.rng);
            let t: u128 = match at {
                Some(d) => d.nanos as u128,
                None => 0u128,
            };
            let v = peek ^ hash_u128(t);
            self.record.record(v, at);
            assert(v == spec_record_value(peek, at));
        }
    }

    /// The next 64 random bits; `at` is the simulated time of the draw.
    pub fn next_u64(&mut self, at: Option<Duration>) -> (r: u64)
        requires
            old(self).wf(),
        ensures
            final(self).drawn_from(*old(self), at),
            (r, final(self).spec_stream()) == xoshiro_next_u64_of(old(self).spec_stream()),
            final(self).wf(),
            final(self).spec_seed() == old(self).spec_seed(),
            final(self).spec_buggify() == old(self).spec_buggify(),
    {
        let r = xoshiro_next_u64(&mut self.rng);
        self.after_draw(at);
        r
    }

    /// The next 32 random bits; `at` is the simulated time of the draw.
    pub fn next_u32(&mut self, at: Option<Duration>) -> (r: u32)
        requires
            old(self).wf(),
        ensures
            final(self).drawn_from(*old(self), at),
            (r, final(self).spec_stream()) == xoshiro_next_u32_of(old(self).spec_stream()),
            final(self).wf(),
            final(self).spec_seed() == old(self).spec_seed(),
            final(self).spec_buggify() == old(self).spec_buggify(),
    {
        let r = xoshiro_next_u32(&mut self.rng);
        self.after_draw(at);
        r
    }

    /// A value drawn uniformly from `lo..hi`.
    pub fn gen_range(&mut self, lo: u64, hi: u64, at: Option<Duration>) -> (r: u64)
        requires
            old(self).wf(),
            lo < hi,
        ensures
            final(self).drawn_from(*old(self), at),
            (r, final(self).spec_stream()) == xoshiro_gen_range_of(old(self).spec_stream(), lo, hi),
            final(self).wf(),
            final(self).spec_seed() == old(self).spec_seed(),
            final(self).spec_buggify() == old(self).spec_buggify(),
            lo <= r < hi,
    {
        let r = xoshiro_gen_range(&mut self.rng, lo, hi);
        self.after_draw(at);
        r
    }

    /// `true` with probability `numerator / denominator`.
    pub fn gen_ratio(&mut self, numerator: u32, denominator: u32, at: Option<Duration>) -> (r: bool)
        requires
            old(self).wf(),
            0 < denominator,
            numerator <= denominator,
        ensures
            final(self).drawn_from(*old(self), at),
            (r, final(self).spec_stream()) == xoshiro_gen_ratio_of(old(self).spec_stream(), numerator, denominator),
            final(self).wf(),
            final(self).spec_seed() == old(self).spec_seed(),
            final(self).spec_buggify() == old(self).spec_buggify(),
            numerator == 0 ==> !r,
            numerator == denominator ==> r,
    {
        let r = xoshiro_gen_ratio(&mut self.rng, numerator, denominator);
        self.after_draw(at);
        r
    }

    /// Fills `dest` with random bytes.
    pub fn fill_bytes(&mut self, dest: &mut Vec<u8>, at: Option<Duration>)
        requires
            old(self).wf(),
        ensures
            final(self).drawn_from(*old(self), at),
            (final(dest)@, final(self).spec_stream()) == xoshiro_fill_bytes_of(old(self).spec_stream(), old(dest)@.len()),
            final(self).wf(),
            final(self).spec_seed() == old(self).spec_seed(),
            final(self).spec_buggify() == old(self).spec_buggify(),
            final(dest)@.len() == old(dest)@.len(),
    {
        xoshiro_fill_bytes(&mut self.rng, dest);
        self.after_draw(at);
    }

    /// Starts checking draws against `log`, from its beginning.
    pub fn enable_check(&mut self, log: Log)
        requires
            old(self).wf(),
        ensures
            final(self).wf(),
            final(self).spec_record().check == Some((log.0@, 0nat)),
            final(self).spec_record().log == old(self).spec_record().log,
            final(self).spec_record().violation == old(self).spec_record().violation,
            final(self).spec_seed() == old(self).spec_seed(),
            final(self).spec_buggify() == old(self).spec_buggify(),
    {
        self.record.check = Some((log.0, 0));
    }

    /// Starts logging draws, into an empty log.
    pub fn enable_log(&mut self)
        requires
            old(self).wf(),
        ensures
            final(self).wf(),
            final(self).spec_record().log == Some(Seq::<u8>::empty()),
            final(self).spec_record().check == old(self).spec_record().check,
            final(self).spec_record().violation == old(self).spec_record().violation,
            final(self).spec_seed() == old(self).spec_seed(),
            final(self).spec_buggify() == old(self).spec_buggify(),
    {
        self.record.log = Some(Vec::new());
    }

    /// Takes the log out: the one being written if any, else the one being
    /// checked against. Both stop.
    pub fn take_log(&mut self) -> (l: Option<Log>)
        requires
            old(self).wf(),
        ensures
            final(self).wf(),
            match old(self).spec_record().log {
                Some(w) => l is Some && (l->0).0@ == w
                    && final(self).spec_record().log is None
                    && final(self).spec_record().check == old(self).spec_record().check,
                None => final(self).spec_record().log is None && (match old(self).spec_record().check {
                    Some((c, _)) => l is Some && (l->0).0@ == c && final(self).spec_record().check is None,
                    None => l is None && final(self).spec_record().check is None,
                }),
            },
            final(self).spec_record().violation == old(self).spec_record().violation,
            final(self).spec_seed() == old(self).spec_seed(),
            final(self).spec_buggify() == old(self).spec_buggify(),
    {
        match self.record.log.take() {
            Some(l) => Some(Log(l)),
            None => match self.record.check.take() {
                Some((c, _)) => Some(Log(c)),
                None => None,
            },
        }
    }

    /// The first disagreement with the checked log, if any was found.
    pub fn violation(&self) -> (v: Option<NonDeterminism>)
        ensures
            v == self.spec_record().violation,
    {
        self.record.violation
    }

    /// Enable buggify.
    pub fn enable_buggify(&mut self)
        ensures
            final(self).spec_buggify(),
            final(self).spec_seed() == old(self).spec_seed(),
            final(self).spec_stream() == old(self).spec_stream(),
            final(self).spec_record() == old(self).spec_record(),
            final(self).wf() == old(self).wf(),
    {
        self.buggify = true;
    }

    /// Disable buggify.
    pub fn disable_buggify(&mut self)
        ensures
            !final(self).spec_buggify(),
            final(self).spec_seed() == old(self).spec_seed(),
            final(self).spec_stream() == old(self).spec_stream(),
            final(self).spec_record() == old(self).spec_record(),
            final(self).wf() == old(self).wf(),
    {
        self.buggify = false;
    }

    /// Returns if buggify is enabled.
    pub fn is_buggify_enabled(&self) -> (b: bool)
        ensures
            b == self.spec_buggify(),
    {
        self.buggify
    }

    /// Returns true with a probability of 25% if buggify is enabled; draws
    /// nothing when it is disabled.
    pub fn buggify(&mut self, at: Option<Duration>) -> (b: bool)
        requires
            old(self).wf(),
        ensures
            final(self).wf(),
            b ==> old(self).spec_buggify(),
            !old(self).spec_buggify() ==> *final(self) == *old(self),
            old(self).spec_buggify() ==> final(self).drawn_from(*old(self), at)
                && (b, final(self).spec_stream()) == xoshiro_gen_ratio_of(old(self).spec_stream(), 1, 4),
            final(self).spec_buggify() == old(self).spec_buggify(),
            final(self).spec_seed() == old(self).spec_seed(),
    {
        self.buggify && self.gen_ratio(1, 4, at)
    }

    /// Buggify with probability `numerator / denominator`; always `true`
    /// when enabled with a probability of one, and draws nothing when disabled.
    pub fn buggify_with_prob(&mut self, numerator: u32, denominator: u32, at: Option<Duration>) -> (b: bool)
        requires
            old(self).wf(),
            0 < denominator,
            numerator <= denominator,
        ensures
            final(self).wf(),
            b ==> old(self).spec_buggify(),
            old(self).spec_buggify() && numerator == denominator ==> b,
            old(self).spec_buggify() && numerator == 0 ==> !b,
            !old(self).spec_buggify() ==> *final(self) == *old(self),
            old(self).spec_buggify() ==> final(self).drawn_from(*old(self), at)
                && (b, final(self).spec_stream()) == xoshiro_gen_ratio_of(old(self).spec_stream(), numerator, denominator),
            final(self).spec_buggify() == old(self).spec_buggify(),
            final(self).spec_seed() == old(self).spec_seed(),
    {
        self.buggify && self.gen_ratio(numerator, denominator, at)
    }
}

/// Generates a random `u64` using the global random number generator.
pub fn random(rng: &mut GlobalRng, at: Option<Duration>) -> (r: u64)
    requires
        old(rng).wf(),
    ensures
        final(rng).drawn_from(*old(rng), at),
        (r, final(rng).spec_stream()) == xoshiro_next_u64_of(old(rng).spec_stream()),
        final(rng).wf(),
        final(rng).spec_seed() == old(rng).spec_seed(),
        final(rng).spec_buggify() == old(rng).spec_buggify(),
{
    rng.next_u64(at)
}

} // verus!
