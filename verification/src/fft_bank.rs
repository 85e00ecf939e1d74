//! Bookkeeping of a shared FFT bank: subscriptions share one branch per
//! (size, window) key, branches live while they have consumers, and each
//! branch transforms a frame identity at most once.
use vstd::prelude::*;

verus! {

/// FFT sizes a kernel supports.
pub open spec fn is_supported_fft_size(n: usize) -> bool {
    n == 2048 || n == 4096 || n == 8192 || n == 16384
}

/// Whether a kernel supports this FFT size.
pub fn supported_fft_size(n: usize) -> (result: bool)
    ensures
        result == is_supported_fft_size(n),
{
    n == 2048 || n == 4096 || n == 8192 || n == 16384
}

/// Window applied before a transform.
#[derive(Clone, Copy, Debug, PartialEq, Eq, Structural)]
pub enum WindowFunction {
    Hann,
    Hamming,
    BlackmanHarris,
    FlatTop,
    Rectangular,
}

/// The key a branch is shared under.
#[derive(Clone, Copy, Debug, PartialEq, Eq, Structural)]
pub struct FftBranchKey {
    pub fft_size: usize,
    pub window: WindowFunction,
}

impl FftBranchKey {
    /// A key for `fft_size` and `window`.
    pub fn new(fft_size: usize, window: WindowFunction) -> (key: Self)
        ensures
            key.fft_size == fft_size,
            key.window == window,
    {
        FftBranchKey { fft_size, window }
    }

    /// The transform size of this key.
    pub fn fft_size(self) -> (size: usize)
        ensures
            size == self.fft_size,
    {
        self.fft_size
    }

    /// The window of this key.
    pub fn window(self) -> (window: WindowFunction)
        ensures
            window == self.window,
    {
        self.window
    }
}

/// Identity of the stream a bank analyses.
#[derive(Clone, Copy, Debug, PartialEq, Eq, Structural)]
pub struct FftStreamId(pub u64);

impl FftStreamId {
    /// The stream with this number.
    pub fn new(value: u64) -> (id: Self)
        ensures
            id.0 == value,
    {
        FftStreamId(value)
    }

    /// The number of this stream.
    pub fn value(self) -> (value: u64)
        ensures
            value == self.0,
    {
        self.0
    }
}

/// Identity of one subscription.
#[derive(Clone, Copy, Debug, PartialEq, Eq, Structural)]
pub struct FftSubscriptionId(pub u64);

/// Identity of one branch.
#[derive(Clone, Copy, Debug, PartialEq, Eq, Structural)]
pub struct FftBranchId(pub u64);

/// A subscription and the branch serving it.
#[derive(Clone, Copy, Debug, PartialEq, Eq, Structural)]
pub struct FftBankSubscription {
    pub id: FftSubscriptionId,
    pub branch_id: FftBranchId,
}

impl FftBankSubscription {
    /// The subscription id.
    pub fn id(self) -> (id: FftSubscriptionId)
        ensures
            id == self.id,
    {
        self.id
    }

    /// The branch serving this subscription.
    pub fn branch_id(self) -> (id: FftBranchId)
        ensures
            id == self.branch_id,
    {
        self.branch_id
    }
}

/// Why an FFT request failed.
#[derive(Clone, Copy, Debug, PartialEq, Eq, Structural)]
pub enum FftError {
    InvalidFftSize { requested: usize },
    UnsupportedKernelSize { requested: usize },
    FrameSizeMismatch { expected: usize, actual: usize },
    InterleavedFrameSizeMismatch { expected: usize, actual: usize },
    InvalidSampleRate,
    NonFiniteInput,
    InvalidOutputCapacity,
    TransformFailed,
    StaleFrame { latest: u64, received: u64 },
    ConflictingFrameIdentity { frame_id: u64 },
    UnknownSubscription,
    AnalysisUnavailable,
    IdExhausted,
    WorkerStartFailed,
    WorkerPanicked,
    Cancelled,
}

/// The fingerprint of a frame: an FNV-style fold of the sample bit
/// patterns, seeded with the sample rate, on wrapping 64-bit arithmetic.
pub open spec fn fingerprint(bits: Seq<u32>, sample_rate: u32) -> u64
    decreases bits.len(),
{
    if bits.len() == 0 {
        sample_rate as u64
    } else {
        let h = fingerprint(bits.drop_last(), sample_rate);
        ((((h as int * 1099511628211) % 0x1_0000_0000_0000_0000) + bits.last() as int)
            % 0x1_0000_0000_0000_0000) as u64
    }
}

/// The fingerprint of a frame from the bit patterns of its samples.
pub fn frame_fingerprint(bits: &Vec<u32>, sample_rate: u32) -> (hash: u64)
    ensures
        hash == fingerprint(bits@, sample_rate),
{
    let mut hash: u64 = sample_rate as u64;
    let mut i: usize = 0;
    while i < bits.len()
        invariant
            i <= bits.len(),
            hash == fingerprint(bits@.take(i as int), sample_rate),
        decreases bits.len() - i,
    {
        assert(bits@.take(i + 1).drop_last() == bits@.take(i as int));
        let product = hash.wrapping_mul(1099511628211);
        hash = product.wrapping_add(bits[i] as u64);
        i = i + 1;
    }
    assert(bits@.take(bits.len() as int) == bits@);
    hash
}

/// Whether the bit pattern of an `f32` is a finite number: its exponent
/// field is not all ones.
pub open spec fn is_finite_bits(bits: u32) -> bool {
    (bits >> 23u32) & 0xffu32 != 0xffu32
}

/// Whether every sample pattern is finite.
pub open spec fn all_finite(bits: Seq<u32>) -> bool {
    forall|i: int| 0 <= i < bits.len() ==> is_finite_bits(#[trigger] bits[i])
}

/// Whether every sample of a frame is finite, from their bit patterns.
pub fn frame_is_finite(bits: &Vec<u32>) -> (finite: bool)
    ensures
        finite == all_finite(bits@),
{
    let mut i: usize = 0;
    while i < bits.len()
        invariant
            i <= bits.len(),
            forall|k: int| 0 <= k < i ==> is_finite_bits(#[trigger] bits@[k]),
        decreases bits.len() - i,
    {
        if (bits[i] >> 23u32) & 0xffu32 == 0xffu32 {
            assert(!is_finite_bits(bits@[i as int]));
            return false;
        }
        i = i + 1;
    }
    true
}

/// The state of one branch.
#[derive(Clone, Copy, Debug, PartialEq, Eq, Structural)]
pub struct BranchState {
    pub key: FftBranchKey,
    pub id: FftBranchId,
    pub consumers: usize,
    pub last_frame_id: Option<u64>,
    pub last_sample_rate: Option<u32>,
    pub last_fingerprint: Option<u64>,
    pub transform_count: u64,
}

/// `state` with `consumers` consumers.
pub open spec fn with_consumers(state: BranchState, consumers: int) -> BranchState {
    BranchState {
        key: state.key,
        id: state.id,
        consumers: consumers as usize,
        last_frame_id: state.last_frame_id,
        last_sample_rate: state.last_sample_rate,
        last_fingerprint: state.last_fingerprint,
        transform_count: state.transform_count,
    }
}

/// `state` after transforming frame `frame_id`.
pub open spec fn after_transform(state: BranchState, frame_id: u64, sample_rate: u32, fingerprint: u64) -> BranchState {
    BranchState {
        key: state.key,
        id: state.id,
        consumers: state.consumers,
        last_frame_id: Some(frame_id),
        last_sample_rate: Some(sample_rate),
        last_fingerprint: Some(fingerprint),
        transform_count: if state.transform_count == u64::MAX {
            u64::MAX
        } else {
            (state.transform_count + 1) as u64
        },
    }
}

/// What to do with an offered frame.
#[derive(Clone, Copy, Debug, PartialEq, Eq, Structural)]
pub enum FrameAdmission {
    /// The branch already transformed this very frame: nothing to do.
    AlreadyTransformed,
    /// Transform the frame on the branch for `key`, then record it with
    /// this fingerprint.
    Transform { key: FftBranchKey, fingerprint: u64 },
}

/// What an available analysis was made from.
#[derive(Clone, Copy, Debug, PartialEq, Eq, Structural)]
pub struct FftBankAnalysis {
    pub stream_id: FftStreamId,
    pub key: FftBranchKey,
    pub branch_id: FftBranchId,
    pub frame_id: u64,
    pub sample_rate: u32,
}

impl FftBankAnalysis {
    /// The stream analysed.
    pub fn stream_id(&self) -> (id: FftStreamId)
        ensures
            id == self.stream_id,
    {
        self.stream_id
    }

    /// The identity of the frame analysed.
    pub fn frame_id(&self) -> (id: u64)
        ensures
            id == self.frame_id,
    {
        self.frame_id
    }

    /// The sample rate of the frame analysed.
    pub fn sample_rate(&self) -> (rate: u32)
        ensures
            rate == self.sample_rate,
    {
        self.sample_rate
    }

    /// The transform size.
    pub fn fft_size(&self) -> (size: usize)
        ensures
            size == self.key.fft_size,
    {
        self.key.fft_size
    }

    /// The window applied.
    pub fn window(&self) -> (window: WindowFunction)
        ensures
            window == self.key.window,
    {
        self.key.window
    }
}

/// How often `key` occurs in `keys`.
pub open spec fn key_count(keys: Seq<FftBranchKey>, key: FftBranchKey) -> nat
    decreases keys.len(),
{
    if keys.len() == 0 {
        0
    } else {
        key_count(keys.drop_last(), key) + if keys.last() == key {
            1nat
        } else {
            0nat
        }
    }
}

proof fn lemma_key_count_push(keys: Seq<FftBranchKey>, k: FftBranchKey, key: FftBranchKey)
    ensures
        key_count(keys.push(k), key) == key_count(keys, key) + if k == key {
            1nat
        } else {
            0nat
        },
{
    assert(keys.push(k).drop_last() == keys);
}

proof fn lemma_key_count_remove(keys: Seq<FftBranchKey>, i: int, key: FftBranchKey)
    requires
        0 <= i < keys.len(),
    ensures
        key_count(keys, key) == key_count(keys.remove(i), key) + if keys[i] == key {
            1nat
        } else {
            0nat
        },
    decreases keys.len(),
{
    if i == keys.len() - 1 {
        assert(keys.remove(i) == keys.drop_last());
    } else {
        let d = keys.drop_last();
        lemma_key_count_remove(d, i, key);
        assert(keys.remove(i) == d.remove(i).push(keys.last()));
        lemma_key_count_push(d.remove(i), keys.last(), key);
    }
}

proof fn lemma_key_count_absent(keys: Seq<FftBranchKey>, key: FftBranchKey)
    ensures
        (forall|i: int| 0 <= i < keys.len() ==> keys[i] != key) <==> key_count(keys, key) == 0,
    decreases keys.len(),
{
    if keys.len() > 0 {
        lemma_key_count_absent(keys.drop_last(), key);
        if key_count(keys, key) == 0 {
            assert forall|i: int| 0 <= i < keys.len() implies keys[i] != key by {
                if i < keys.len() - 1 {
                    assert(keys[i] == keys.drop_last()[i]);
                }
            }
        }
        if forall|i: int| 0 <= i < keys.len() ==> keys[i] != key {
            assert forall|i: int| 0 <= i < keys.drop_last().len() implies keys.drop_last()[i] != key by {
                assert(keys.drop_last()[i] == keys[i]);
            }
        }
    }
}

/// The subscription map that parallel id and key lists stand for.
pub open spec fn key_map(ids: Seq<u64>, keys: Seq<FftBranchKey>) -> Map<u64, FftBranchKey> {
    Map::new(
        |id: u64| ids.contains(id),
        |id: u64| keys[choose|i: int| 0 <= i < ids.len() && ids[i] == id],
    )
}

/// The position of the branch with `key`, if any.
pub open spec fn branch_index(branches: Seq<BranchState>, key: FftBranchKey) -> Option<int> {
    if exists|i: int| 0 <= i < branches.len() && branches[i].key == key {
        Some(choose|i: int| 0 <= i < branches.len() && branches[i].key == key)
    } else {
        None
    }
}

/// The abstract state of a bank.
pub struct BankState {
    pub stream_id: FftStreamId,
    pub next_subscription_id: u64,
    pub next_branch_id: u64,
    pub branches: Seq<BranchState>,
    pub subscriptions: Map<u64, FftBranchKey>,
}

/// The branch serving subscription `id` of `s`.
pub open spec fn subscribed_branch(s: BankState, id: u64) -> BranchState {
    s.branches[branch_index(s.branches, s.subscriptions[id])->0]
}

/// What a bank answers to a frame offered under subscription `id`, given
/// the bit patterns of its interleaved stereo samples.
pub open spec fn admission(s: BankState, id: u64, frame_id: u64, bits: Seq<u32>, sample_rate: u32) -> Result<FrameAdmission, FftError> {
    if !s.subscriptions.contains_key(id) {
        Err(FftError::UnknownSubscription)
    } else {
        let key = s.subscriptions[id];
        let branch = subscribed_branch(s, id);
        let fp = fingerprint(bits, sample_rate);
        if bits.len() != key.fft_size * 2 {
            Err(FftError::InterleavedFrameSizeMismatch { expected: (key.fft_size * 2) as usize, actual: bits.len() as usize })
        } else if sample_rate == 0 {
            Err(FftError::InvalidSampleRate)
        } else if !all_finite(bits) {
            Err(FftError::NonFiniteInput)
        } else {
            match branch.last_frame_id {
                Some(latest) => if frame_id < latest {
                    Err(FftError::StaleFrame { latest, received: frame_id })
                } else if frame_id == latest {
                    if branch.last_fingerprint == Some(fp) {
                        Ok(FrameAdmission::AlreadyTransformed)
                    } else {
                        Err(FftError::ConflictingFrameIdentity { frame_id })
                    }
                } else {
                    Ok(FrameAdmission::Transform { key, fingerprint: fp })
                },
                None => Ok(FrameAdmission::Transform { key, fingerprint: fp }),
            }
        }
    }
}

/// The bookkeeping of an FFT bank: which branches exist, who consumes them,
/// and which frame each transformed last.
pub struct FftBank {
    stream_id: FftStreamId,
    next_subscription_id: u64,
    next_branch_id: u64,
    branches: Vec<BranchState>,
    subscription_ids: Vec<u64>,
    subscription_keys: Vec<FftBranchKey>,
}

impl View for FftBank {
    type V = BankState;

    closed spec fn view(&self) -> BankState {
        BankState {
            stream_id: self.stream_id,
            next_subscription_id: self.next_subscription_id,
            next_branch_id: self.next_branch_id,
            branches: self.branches@,
            subscriptions: key_map(self.subscription_ids@, self.subscription_keys@),
        }
    }
}

impl FftBank {
    /// Internal consistency of the parallel lists.
    pub closed spec fn inv(&self) -> bool {
        &&& self.subscription_ids@.len() == self.subscription_keys@.len()
        &&& forall|i: int, j: int|
            0 <= i < j < self.subscription_ids@.len() ==> self.subscription_ids@[i]
                != self.subscription_ids@[j]
        &&& forall|i: int|
            0 <= i < self.subscription_ids@.len() ==> self.subscription_ids@[i]
                <= self.next_subscription_id
        &&& forall|i: int, j: int|
            0 <= i < j < self.branches@.len() ==> self.branches@[i].key != self.branches@[j].key
        &&& forall|i: int|
            0 <= i < self.branches@.len() ==> is_supported_fft_size(#[trigger] self.branches@[i].key.fft_size)
        &&& forall|i: int|
            0 <= i < self.subscription_keys@.len() ==> exists|b: int|
                0 <= b < self.branches@.len() && self.branches@[b].key
                    == #[trigger] self.subscription_keys@[i]
        &&& forall|i: int|
            0 <= i < self.branches@.len() ==> (#[trigger] self.branches@[i]).consumers
                == key_count(self.subscription_keys@, self.branches@[i].key)
        &&& forall|i: int|
            0 <= i < self.branches@.len() ==> ((#[trigger] self.branches@[i]).last_frame_id is Some
                <==> self.branches@[i].last_sample_rate is Some)
    }

    /// An empty bank for `stream_id`.
    pub fn new(stream_id: FftStreamId) -> (bank: Self)
        ensures
            bank.inv(),
            bank@.stream_id == stream_id,
            bank@.next_subscription_id == 0,
            bank@.next_branch_id == 0,
            bank@.branches.len() == 0,
            bank@.subscriptions == Map::<u64, FftBranchKey>::empty(),
    {
        let bank = FftBank {
            stream_id,
            next_subscription_id: 0,
            next_branch_id: 0,
            branches: Vec::new(),
            subscription_ids: Vec::new(),
            subscription_keys: Vec::new(),
        };
        assert(bank@.subscriptions =~= Map::<u64, FftBranchKey>::empty());
        bank
    }

    fn find_branch(&self, key: FftBranchKey) -> (result: Option<usize>)
        requires
            self.inv(),
        ensures
            result matches Some(i) ==> i < self.branches@.len() && self.branches@[i as int].key == key
                && branch_index(self.branches@, key) == Some(i as int),
            result is None ==> branch_index(self.branches@, key) is None,
    {
        let mut i: usize = 0;
        while i < self.branches.len()
            invariant
                self.inv(),
                i <= self.branches@.len(),
                forall|k: int| 0 <= k < i ==> self.branches@[k].key != key,
            decreases self.branches.len() - i,
        {
            if self.branches[i].key == key {
                proof {
                    let c = choose|c: int| 0 <= c < self.branches@.len() && self.branches@[c].key == key;
                    assert(c == i as int);
                }
                return Some(i);
            }
            i = i + 1;
        }
        None
    }

    fn find_subscription(&self, id: u64) -> (result: Option<usize>)
        requires
            self.inv(),
        ensures
            result matches Some(i) ==> i < self.subscription_ids@.len() && self.subscription_ids@[i as int] == id
                && self@.subscriptions.contains_key(id) && self@.subscriptions[id] == self.subscription_keys@[i as int],
            result is None ==> !self@.subscriptions.contains_key(id),
    {
        let mut i: usize = 0;
        while i < self.subscription_ids.len()
            invariant
                self.inv(),
                i <= self.subscription_ids@.len(),
                forall|k: int| 0 <= k < i ==> self.subscription_ids@[k] != id,
            decreases self.subscription_ids.len() - i,
        {
            if self.subscription_ids[i] == id {
                proof {
                    lemma_key_map_index(self.subscription_ids@, self.subscription_keys@, i as int);
                }
                return Some(i);
            }
            i = i + 1;
        }
        None
    }
}

impl FftBank {
    /// Subscribes to the branch for `key`, creating it (with the next branch
    /// id) when none exists; fails when the key's FFT size is unsupported or
    /// an id counter is exhausted.
    pub fn subscribe(&mut self, key: FftBranchKey) -> (result: Result<FftBankSubscription, FftError>)
        requires
            old(self).inv(),
            branch_index(old(self)@.branches, key) matches Some(b) ==> old(self)@.branches[b].consumers < usize::MAX,
        ensures
            final(self).inv(),
            final(self)@.stream_id == old(self)@.stream_id,
            branch_index(old(self)@.branches, key) is None && old(self)@.next_branch_id == u64::MAX
                ==> result == Err::<FftBankSubscription, FftError>(FftError::IdExhausted) && final(self)@ == old(self)@,
            branch_index(old(self)@.branches, key) is None && old(self)@.next_branch_id < u64::MAX && !is_supported_fft_size(key.fft_size)
                ==> result == Err::<FftBankSubscription, FftError>(FftError::UnsupportedKernelSize { requested: key.fft_size })
                && final(self)@.next_branch_id == old(self)@.next_branch_id + 1
                && final(self)@.next_subscription_id == old(self)@.next_subscription_id
                && final(self)@.branches == old(self)@.branches
                && final(self)@.subscriptions == old(self)@.subscriptions,
            branch_index(old(self)@.branches, key) is Some ==> final(self)@.next_branch_id == old(self)@.next_branch_id,
            branch_index(old(self)@.branches, key) is Some && old(self)@.next_subscription_id == u64::MAX
                ==> final(self)@ == old(self)@,
            branch_index(old(self)@.branches, key) is None && old(self)@.next_branch_id < u64::MAX && is_supported_fft_size(key.fft_size) ==> {
                &&& final(self)@.next_branch_id == old(self)@.next_branch_id + 1
                &&& final(self)@.branches.len() == old(self)@.branches.len() + 1
                &&& final(self)@.branches.drop_last() == old(self)@.branches
                &&& final(self)@.branches.last().key == key
                &&& final(self)@.branches.last().id == FftBranchId((old(self)@.next_branch_id + 1) as u64)
                &&& final(self)@.branches.last().last_frame_id is None
                &&& final(self)@.branches.last().transform_count == 0
                &&& final(self)@.branches.last().consumers == if result is Ok { 1int } else { 0int }
            },
            (branch_index(old(self)@.branches, key) is Some || (old(self)@.next_branch_id < u64::MAX && is_supported_fft_size(key.fft_size)))
                && old(self)@.next_subscription_id == u64::MAX ==> result == Err::<FftBankSubscription, FftError>(FftError::IdExhausted)
                && final(self)@.subscriptions == old(self)@.subscriptions
                && final(self)@.next_subscription_id == old(self)@.next_subscription_id,
            (branch_index(old(self)@.branches, key) is Some || (old(self)@.next_branch_id < u64::MAX && is_supported_fft_size(key.fft_size)))
                && old(self)@.next_subscription_id < u64::MAX ==> {
                let id = (old(self)@.next_subscription_id + 1) as u64;
                &&& result is Ok
                &&& result->Ok_0.id == FftSubscriptionId(id)
                &&& final(self)@.next_subscription_id == id
                &&& final(self)@.subscriptions == old(self)@.subscriptions.insert(id, key)
                &&& branch_index(final(self)@.branches, key) is Some
                &&& final(self)@.branches[branch_index(final(self)@.branches, key)->0].id == result->Ok_0.branch_id
            },
            result is Ok ==> (branch_index(old(self)@.branches, key) matches Some(b) ==>
                final(self)@.branches == old(self)@.branches.update(b, with_consumers(old(self)@.branches[b], old(self)@.branches[b].consumers + 1))),
            result matches Ok(sub) ==> sub.id.0 > old(self)@.next_subscription_id
                && !old(self)@.subscriptions.contains_key(sub.id.0),
            final(self)@.next_subscription_id >= old(self)@.next_subscription_id,
            id_step(old(self)@, final(self)@, match result {
                Ok(sub) => Some(sub.id.0),
                Err(_) => None,
            }),
    {
        let ghost old_view = self@;
        let mut index = self.find_branch(key);
        if index.is_none() {
            if self.next_branch_id == u64::MAX {
                return Err(FftError::IdExhausted);
            }
            self.next_branch_id = self.next_branch_id + 1;
            if !supported_fft_size(key.fft_size) {
                return Err(FftError::UnsupportedKernelSize { requested: key.fft_size });
            }
            let ghost before = self.branches@;
            self.branches.push(
                BranchState {
                    key,
                    id: FftBranchId(self.next_branch_id),
                    consumers: 0,
                    last_frame_id: None,
                    last_sample_rate: None,
                    last_fingerprint: None,
                    transform_count: 0,
                },
            );
            proof {
                let n = before.len() as int;
                assert(self.branches@[n].key == key);
                assert(before == self.branches@.drop_last());
                assert forall|i: int| 0 <= i < self.subscription_keys@.len() implies exists|b: int|
                    0 <= b < self.branches@.len() && self.branches@[b].key == #[trigger] self.subscription_keys@[i] by {
                    let b = choose|b: int| 0 <= b < before.len() && before[b].key == self.subscription_keys@[i];
                    assert(self.branches@[b] == before[b]);
                }
                assert forall|i: int| 0 <= i < self.subscription_keys@.len() implies self.subscription_keys@[i] != key by {
                    let b = choose|b: int| 0 <= b < before.len() && before[b].key == self.subscription_keys@[i];
                    assert(before[b].key == self.subscription_keys@[i]);
                }
                lemma_key_count_absent(self.subscription_keys@, key);
                assert forall|i: int| 0 <= i < self.branches@.len() implies (#[trigger] self.branches@[i]).consumers
                    == key_count(self.subscription_keys@, self.branches@[i].key) by {
                    if i < n {
                        assert(self.branches@[i] == before[i]);
                    }
                }
                assert forall|i: int, j: int| 0 <= i < j < self.branches@.len() implies self.branches@[i].key != self.branches@[j].key by {
                    if j == n {
                        assert(self.branches@[i] == before[i]);
                    } else {
                        assert(self.branches@[i] == before[i]);
                        assert(self.branches@[j] == before[j]);
                    }
                }
                assert forall|i: int| 0 <= i < self.branches@.len() implies is_supported_fft_size(#[trigger] self.branches@[i].key.fft_size) by {
                    if i < n {
                        assert(self.branches@[i] == before[i]);
                    }
                }
            }
            index = Some(self.branches.len() - 1);
        }
        let b = match index {
            Some(b) => b,
            None => 0,
        };
        assert(b < self.branches@.len() && self.branches@[b as int].key == key);
        assert(branch_index(self.branches@, key) == Some(b as int)) by {
            let c = choose|c: int| 0 <= c < self.branches@.len() && self.branches@[c].key == key;
            if c != b as int {
                if c < b as int {
                    assert(self.branches@[c].key != self.branches@[b as int].key);
                } else {
                    assert(self.branches@[b as int].key != self.branches@[c].key);
                }
            }
        }
        if self.next_subscription_id == u64::MAX {
            assert(self@.subscriptions =~= old_view.subscriptions);
            return Err(FftError::IdExhausted);
        }
        self.next_subscription_id = self.next_subscription_id + 1;
        let id = self.next_subscription_id;
        let ghost old_ids = self.subscription_ids@;
        let ghost old_keys = self.subscription_keys@;
        let ghost before_branches = self.branches@;
        let mut branch = self.branches[b];
        proof {
            if branch_index(old_view.branches, key) is Some {
                assert(before_branches == old_view.branches);
            }
        }
        branch.consumers = branch.consumers + 1;
        let branch_id = branch.id;
        self.branches.set(b, branch);
        assert(!old_ids.contains(id)) by {
            if old_ids.contains(id) {
                let k = choose|k: int| 0 <= k < old_ids.len() && old_ids[k] == id;
                assert(old_ids[k] <= id - 1);
            }
        }
        self.subscription_ids.push(id);
        self.subscription_keys.push(key);
        proof {
            lemma_key_map_push(old_ids, old_keys, id, key);
            assert forall|i: int, j: int| 0 <= i < j < self.branches@.len() implies self.branches@[i].key != self.branches@[j].key by {
                assert(before_branches[i].key == self.branches@[i].key);
                assert(before_branches[j].key == self.branches@[j].key);
            }
            assert forall|i: int| 0 <= i < self.branches@.len() implies is_supported_fft_size(#[trigger] self.branches@[i].key.fft_size) by {
                assert(before_branches[i].key == self.branches@[i].key);
            }
            assert forall|i: int| 0 <= i < self.subscription_keys@.len() implies exists|bb: int|
                0 <= bb < self.branches@.len() && self.branches@[bb].key == #[trigger] self.subscription_keys@[i] by {
                if i == old_keys.len() {
                    assert(self.branches@[b as int].key == key);
                } else {
                    assert(self.subscription_keys@[i] == old_keys[i]);
                    let bb = choose|bb: int| 0 <= bb < before_branches.len() && before_branches[bb].key == old_keys[i];
                    assert(self.branches@[bb].key == before_branches[bb].key);
                }
            }
            assert forall|i: int| 0 <= i < self.branches@.len() implies (#[trigger] self.branches@[i]).consumers
                == key_count(self.subscription_keys@, self.branches@[i].key) by {
                lemma_key_count_push(old_keys, key, self.branches@[i].key);
                if i != b as int {
                    assert(self.branches@[i] == before_branches[i]);
                    if i < b as int {
                        assert(before_branches[i].key != before_branches[b as int].key);
                    } else {
                        assert(before_branches[b as int].key != before_branches[i].key);
                    }
                }
            }
            assert(branch_index(self.branches@, key) == Some(b as int)) by {
                assert(self.branches@[b as int].key == key);
                let c = choose|c: int| 0 <= c < self.branches@.len() && self.branches@[c].key == key;
                assert(self.branches@[c].key == before_branches[c].key);
            }
            if branch_index(old_view.branches, key) is Some {
                assert(self.branches@ =~= old_view.branches.update(b as int, with_consumers(old_view.branches[b as int], old_view.branches[b as int].consumers + 1)));
            } else {
                assert(self.branches@.drop_last() =~= before_branches.drop_last());
            }
        }
        Ok(FftBankSubscription { id: FftSubscriptionId(id), branch_id })
    }
}

impl FftBank {
    /// Ends subscription `id`; its branch loses a consumer and goes away with
    /// its last one. Answers whether `id` was subscribed.
    pub fn unsubscribe(&mut self, id: FftSubscriptionId) -> (removed: bool)
        requires
            old(self).inv(),
        ensures
            final(self).inv(),
            removed == old(self)@.subscriptions.contains_key(id.0),
            id_step(old(self)@, final(self)@, None),
            !removed ==> final(self)@ == old(self)@,
            removed ==> {
                let key = old(self)@.subscriptions[id.0];
                let b = branch_index(old(self)@.branches, key)->0;
                let branch = old(self)@.branches[b];
                &&& branch_index(old(self)@.branches, key) is Some
                &&& branch.consumers >= 1
                &&& final(self)@.stream_id == old(self)@.stream_id
                &&& final(self)@.next_subscription_id == old(self)@.next_subscription_id
                &&& final(self)@.next_branch_id == old(self)@.next_branch_id
                &&& final(self)@.subscriptions == old(self)@.subscriptions.remove(id.0)
                &&& final(self)@.branches == if branch.consumers == 1 {
                    old(self)@.branches.remove(b)
                } else {
                    old(self)@.branches.update(b, with_consumers(branch, branch.consumers - 1))
                }
            },
    {
        let r = match self.find_subscription(id.0) {
            Some(r) => r,
            None => {
                return false;
            },
        };
        let ghost old_view = self@;
        let ghost old_ids = self.subscription_ids@;
        let ghost old_keys = self.subscription_keys@;
        let ghost old_branches = self.branches@;
        let key = self.subscription_keys[r];
        let b = match self.find_branch(key) {
            Some(b) => b,
            None => {
                proof {
                    let w = choose|w: int| 0 <= w < old_branches.len() && old_branches[w].key == old_keys[r as int];
                    assert(old_branches[w].key == key);
                }
                return true;
            },
        };
        proof {
            lemma_key_count_remove(old_keys, r as int, key);
            assert(self.branches@[b as int].consumers == key_count(old_keys, key));
        }
        self.subscription_ids.remove(r);
        self.subscription_keys.remove(r);
        let ghost new_keys = self.subscription_keys@;
        proof {
            lemma_key_map_remove(old_ids, old_keys, r as int);
            assert(distinct_ids(old_ids));
        }
        let mut branch = self.branches[b];
        branch.consumers = branch.consumers - 1;
        if branch.consumers == 0 {
            self.branches.remove(b);
            proof {
                lemma_key_count_absent(new_keys, key);
                assert forall|i: int, j: int| 0 <= i < j < self.branches@.len() implies self.branches@[i].key != self.branches@[j].key by {
                    let oi = if i < b { i } else { i + 1 };
                    let oj = if j < b { j } else { j + 1 };
                    assert(self.branches@[i] == old_branches[oi]);
                    assert(self.branches@[j] == old_branches[oj]);
                }
                assert forall|i: int| 0 <= i < self.branches@.len() implies is_supported_fft_size(#[trigger] self.branches@[i].key.fft_size) by {
                    let oi = if i < b { i } else { i + 1 };
                    assert(self.branches@[i] == old_branches[oi]);
                }
                assert forall|i: int| 0 <= i < self.subscription_keys@.len() implies exists|bb: int|
                    0 <= bb < self.branches@.len() && self.branches@[bb].key == #[trigger] self.subscription_keys@[i] by {
                    let oi = if i < r { i } else { i + 1 };
                    assert(new_keys[i] == old_keys[oi]);
                    assert(new_keys[i] != key);
                    let ob = choose|ob: int| 0 <= ob < old_branches.len() && old_branches[ob].key == old_keys[oi];
                    assert(ob != b);
                    let nb = if ob < b { ob } else { ob - 1 };
                    assert(self.branches@[nb] == old_branches[ob]);
                }
                assert forall|i: int| 0 <= i < self.branches@.len() implies (#[trigger] self.branches@[i]).consumers
                    == key_count(self.subscription_keys@, self.branches@[i].key) by {
                    let oi = if i < b { i } else { i + 1 };
                    assert(self.branches@[i] == old_branches[oi]);
                    lemma_key_count_remove(old_keys, r as int, old_branches[oi].key);
                    if oi < b {
                        assert(old_branches[oi].key != old_branches[b as int].key);
                    } else {
                        assert(old_branches[b as int].key != old_branches[oi].key);
                    }
                }
            }
        } else {
            self.branches.set(b, branch);
            proof {
                assert forall|i: int, j: int| 0 <= i < j < self.branches@.len() implies self.branches@[i].key != self.branches@[j].key by {
                    assert(self.branches@[i].key == old_branches[i].key);
                    assert(self.branches@[j].key == old_branches[j].key);
                }
                assert forall|i: int| 0 <= i < self.branches@.len() implies is_supported_fft_size(#[trigger] self.branches@[i].key.fft_size) by {
                    assert(self.branches@[i].key == old_branches[i].key);
                }
                assert forall|i: int| 0 <= i < self.subscription_keys@.len() implies exists|bb: int|
                    0 <= bb < self.branches@.len() && self.branches@[bb].key == #[trigger] self.subscription_keys@[i] by {
                    let oi = if i < r { i } else { i + 1 };
                    assert(new_keys[i] == old_keys[oi]);
                    let ob = choose|ob: int| 0 <= ob < old_branches.len() && old_branches[ob].key == old_keys[oi];
                    assert(self.branches@[ob].key == old_branches[ob].key);
                }
                assert forall|i: int| 0 <= i < self.branches@.len() implies (#[trigger] self.branches@[i]).consumers
                    == key_count(self.subscription_keys@, self.branches@[i].key) by {
                    lemma_key_count_remove(old_keys, r as int, old_branches[i].key);
                    if i != b as int {
                        assert(self.branches@[i] == old_branches[i]);
                        if i < b {
                            assert(old_branches[i].key != old_branches[b as int].key);
                        } else {
                            assert(old_branches[b as int].key != old_branches[i].key);
                        }
                    }
                }
                assert(self.branches@ =~= old_branches.update(b as int, with_consumers(old_branches[b as int], old_branches[b as int].consumers - 1)));
            }
        }
        true
    }
}

impl FftBank {
    /// What the bank answers to a frame offered under subscription `id`,
    /// given the bit patterns of its interleaved stereo samples: an error, a
    /// frame already transformed, or the branch to transform it on.
    pub fn process_frame(&self, id: FftSubscriptionId, frame_id: u64, bits: &Vec<u32>, sample_rate: u32) -> (result: Result<FrameAdmission, FftError>)
        requires
            self.inv(),
        ensures
            result == admission(self@, id.0, frame_id, bits@, sample_rate),
    {
        let r = match self.find_subscription(id.0) {
            Some(r) => r,
            None => {
                return Err(FftError::UnknownSubscription);
            },
        };
        let key = self.subscription_keys[r];
        let b = match self.find_branch(key) {
            Some(b) => b,
            None => {
                proof {
                    let w = choose|w: int| 0 <= w < self.branches@.len() && self.branches@[w].key == self.subscription_keys@[r as int];
                    assert(self.branches@[w].key == key);
                }
                return Err(FftError::UnknownSubscription);
            },
        };
        assert(is_supported_fft_size(self.branches@[b as int].key.fft_size));
        let expected = key.fft_size * 2;
        if bits.len() != expected {
            return Err(FftError::InterleavedFrameSizeMismatch { expected, actual: bits.len() });
        }
        if sample_rate == 0 {
            return Err(FftError::InvalidSampleRate);
        }
        if !frame_is_finite(bits) {
            return Err(FftError::NonFiniteInput);
        }
        let fp = frame_fingerprint(bits, sample_rate);
        let branch = self.branches[b];
        match branch.last_frame_id {
            Some(latest) => {
                if frame_id < latest {
                    Err(FftError::StaleFrame { latest, received: frame_id })
                } else if frame_id == latest {
                    if branch.last_fingerprint == Some(fp) {
                        Ok(FrameAdmission::AlreadyTransformed)
                    } else {
                        Err(FftError::ConflictingFrameIdentity { frame_id })
                    }
                } else {
                    Ok(FrameAdmission::Transform { key, fingerprint: fp })
                }
            },
            None => Ok(FrameAdmission::Transform { key, fingerprint: fp }),
        }
    }

    /// Records that the branch for `key` transformed frame `frame_id`;
    /// answers whether such a branch exists.
    pub fn record_transform(&mut self, key: FftBranchKey, frame_id: u64, sample_rate: u32, fingerprint: u64) -> (recorded: bool)
        requires
            old(self).inv(),
        ensures
            final(self).inv(),
            recorded == branch_index(old(self)@.branches, key) is Some,
            id_step(old(self)@, final(self)@, None),
            final(self)@.stream_id == old(self)@.stream_id,
            final(self)@.next_subscription_id == old(self)@.next_subscription_id,
            final(self)@.next_branch_id == old(self)@.next_branch_id,
            final(self)@.subscriptions == old(self)@.subscriptions,
            final(self)@.branches == match branch_index(old(self)@.branches, key) {
                Some(b) => old(self)@.branches.update(b, after_transform(old(self)@.branches[b], frame_id, sample_rate, fingerprint)),
                None => old(self)@.branches,
            },
    {
        let b = match self.find_branch(key) {
            Some(b) => b,
            None => {
                return false;
            },
        };
        let ghost before = self.branches@;
        let mut branch = self.branches[b];
        branch.last_frame_id = Some(frame_id);
        branch.last_sample_rate = Some(sample_rate);
        branch.last_fingerprint = Some(fingerprint);
        branch.transform_count = branch.transform_count.saturating_add(1);
        self.branches.set(b, branch);
        proof {
            assert forall|i: int, j: int| 0 <= i < j < self.branches@.len() implies self.branches@[i].key != self.branches@[j].key by {
                assert(self.branches@[i].key == before[i].key);
                assert(self.branches@[j].key == before[j].key);
            }
            assert forall|i: int| 0 <= i < self.branches@.len() implies is_supported_fft_size(#[trigger] self.branches@[i].key.fft_size) by {
                assert(self.branches@[i].key == before[i].key);
            }
            assert forall|i: int| 0 <= i < self.subscription_keys@.len() implies exists|bb: int|
                0 <= bb < self.branches@.len() && self.branches@[bb].key == #[trigger] self.subscription_keys@[i] by {
                let ob = choose|ob: int| 0 <= ob < before.len() && before[ob].key == self.subscription_keys@[i];
                assert(self.branches@[ob].key == before[ob].key);
            }
            assert forall|i: int| 0 <= i < self.branches@.len() implies (#[trigger] self.branches@[i]).consumers
                == key_count(self.subscription_keys@, self.branches@[i].key) by {
                assert(self.branches@[i].key == before[i].key);
                assert(self.branches@[i].consumers == before[i].consumers);
            }
            assert(self.branches@ =~= before.update(b as int, after_transform(before[b as int], frame_id, sample_rate, fingerprint)));
        }
        true
    }

    /// What the latest analysis of subscription `id` was made from.
    pub fn analysis(&self, id: FftSubscriptionId) -> (result: Result<FftBankAnalysis, FftError>)
        requires
            self.inv(),
        ensures
            !self@.subscriptions.contains_key(id.0) ==> result == Err::<FftBankAnalysis, FftError>(FftError::UnknownSubscription),
            self@.subscriptions.contains_key(id.0) && subscribed_branch(self@, id.0).last_frame_id is None
                ==> result == Err::<FftBankAnalysis, FftError>(FftError::AnalysisUnavailable),
            self@.subscriptions.contains_key(id.0) && subscribed_branch(self@, id.0).last_frame_id is Some ==> {
                let branch = subscribed_branch(self@, id.0);
                result == Ok::<FftBankAnalysis, FftError>(FftBankAnalysis {
                    stream_id: self@.stream_id,
                    key: self@.subscriptions[id.0],
                    branch_id: branch.id,
                    frame_id: branch.last_frame_id->0,
                    sample_rate: branch.last_sample_rate->0,
                })
            },
    {
        let r = match self.find_subscription(id.0) {
            Some(r) => r,
            None => {
                return Err(FftError::UnknownSubscription);
            },
        };
        let key = self.subscription_keys[r];
        let b = match self.find_branch(key) {
            Some(b) => b,
            None => {
                proof {
                    let w = choose|w: int| 0 <= w < self.branches@.len() && self.branches@[w].key == self.subscription_keys@[r as int];
                    assert(self.branches@[w].key == key);
                }
                return Err(FftError::UnknownSubscription);
            },
        };
        let branch = self.branches[b];
        assert(branch.last_frame_id is Some <==> branch.last_sample_rate is Some);
        match (branch.last_frame_id, branch.last_sample_rate) {
            (Some(frame_id), Some(sample_rate)) => Ok(FftBankAnalysis {
                stream_id: self.stream_id,
                key,
                branch_id: branch.id,
                frame_id,
                sample_rate,
            }),
            _ => Err(FftError::AnalysisUnavailable),
        }
    }

    /// The number of branches alive.
    pub fn active_branch_count(&self) -> (count: usize)
        ensures
            count == self@.branches.len(),
    {
        self.branches.len()
    }

    /// The number of transform plans alive: two per branch.
    pub fn active_plan_count(&self) -> (count: usize)
        requires
            self@.branches.len() * 2 <= usize::MAX,
        ensures
            count == self@.branches.len() * 2,
    {
        self.branches.len() * 2
    }

    /// The number of consumers of the branch for `key`; zero without one.
    pub fn consumer_count(&self, key: FftBranchKey) -> (count: usize)
        requires
            self.inv(),
        ensures
            count == (match branch_index(self@.branches, key) {
                Some(b) => self@.branches[b].consumers,
                None => 0,
            }),
    {
        match self.find_branch(key) {
            Some(b) => self.branches[b].consumers,
            None => 0,
        }
    }

    /// The number of transforms the branch for `key` ran; zero without one.
    pub fn branch_transform_count(&self, key: FftBranchKey) -> (count: u64)
        requires
            self.inv(),
        ensures
            count == (match branch_index(self@.branches, key) {
                Some(b) => self@.branches[b].transform_count,
                None => 0,
            }),
    {
        match self.find_branch(key) {
            Some(b) => self.branches[b].transform_count,
            None => 0,
        }
    }
}

/// No id occurs twice.
pub open spec fn distinct_ids(ids: Seq<u64>) -> bool {
    forall|i: int, j: int| 0 <= i < j < ids.len() ==> ids[i] != ids[j]
}

proof fn lemma_key_map_index(ids: Seq<u64>, keys: Seq<FftBranchKey>, i: int)
    requires
        distinct_ids(ids),
        ids.len() == keys.len(),
        0 <= i < ids.len(),
    ensures
        key_map(ids, keys).contains_key(ids[i]),
        key_map(ids, keys)[ids[i]] == keys[i],
{
    assert(ids.contains(ids[i]));
    let c = choose|c: int| 0 <= c < ids.len() && ids[c] == ids[i];
    assert(c == i) by {
        if c < i {
            assert(ids[c] != ids[i]);
        } else if c > i {
            assert(ids[i] != ids[c]);
        }
    }
}

proof fn lemma_key_map_push(ids: Seq<u64>, keys: Seq<FftBranchKey>, id: u64, key: FftBranchKey)
    requires
        distinct_ids(ids),
        ids.len() == keys.len(),
        !ids.contains(id),
    ensures
        distinct_ids(ids.push(id)),
        key_map(ids.push(id), keys.push(key)) == key_map(ids, keys).insert(id, key),
{
    let ids2 = ids.push(id);
    let keys2 = keys.push(key);
    assert forall|i: int, j: int| 0 <= i < j < ids2.len() implies ids2[i] != ids2[j] by {
        if j == ids.len() {
            assert(ids2[i] == ids[i]);
        }
    }
    let m = key_map(ids, keys);
    let m2 = key_map(ids2, keys2);
    assert forall|k: u64| #[trigger] m2.contains_key(k) == m.insert(id, key).contains_key(k) by {
        if k == id {
            assert(ids2[ids.len() as int] == k);
        } else if ids.contains(k) {
            let c = choose|c: int| 0 <= c < ids.len() && ids[c] == k;
            assert(ids2[c] == k);
        } else if ids2.contains(k) {
            let c = choose|c: int| 0 <= c < ids2.len() && ids2[c] == k;
            assert(ids[c] == k);
        }
    }
    assert forall|k: u64| #[trigger] m2.contains_key(k) implies m2[k] == m.insert(id, key)[k] by {
        if k == id {
            lemma_key_map_index(ids2, keys2, ids.len() as int);
        } else {
            let c = choose|c: int| 0 <= c < ids.len() && ids[c] == k;
            lemma_key_map_index(ids, keys, c);
            lemma_key_map_index(ids2, keys2, c);
        }
    }
    assert(m2 =~= m.insert(id, key));
}

proof fn lemma_key_map_remove(ids: Seq<u64>, keys: Seq<FftBranchKey>, r: int)
    requires
        distinct_ids(ids),
        ids.len() == keys.len(),
        0 <= r < ids.len(),
    ensures
        distinct_ids(ids.remove(r)),
        key_map(ids.remove(r), keys.remove(r)) == key_map(ids, keys).remove(ids[r]),
{
    let ids2 = ids.remove(r);
    let keys2 = keys.remove(r);
    assert forall|i: int, j: int| 0 <= i < j < ids2.len() implies ids2[i] != ids2[j] by {
        let oi = if i < r { i } else { i + 1 };
        let oj = if j < r { j } else { j + 1 };
        assert(ids2[i] == ids[oi]);
        assert(ids2[j] == ids[oj]);
    }
    let m = key_map(ids, keys);
    let m2 = key_map(ids2, keys2);
    let gone = ids[r];
    assert forall|k: u64| #[trigger] m2.contains_key(k) == m.remove(gone).contains_key(k) by {
        if ids2.contains(k) {
            let c = choose|c: int| 0 <= c < ids2.len() && ids2[c] == k;
            let oc = if c < r { c } else { c + 1 };
            assert(ids[oc] == k);
            assert(oc != r);
            if k == gone {
                if oc < r {
                    assert(ids[oc] != ids[r]);
                } else {
                    assert(ids[r] != ids[oc]);
                }
            }
        }
        if k != gone && ids.contains(k) {
            let c = choose|c: int| 0 <= c < ids.len() && ids[c] == k;
            assert(c != r);
            let nc = if c < r { c } else { c - 1 };
            assert(ids2[nc] == k);
        }
    }
    assert forall|k: u64| #[trigger] m2.contains_key(k) implies m2[k] == m.remove(gone)[k] by {
        let c = choose|c: int| 0 <= c < ids2.len() && ids2[c] == k;
        let oc = if c < r { c } else { c + 1 };
        assert(ids[oc] == k);
        lemma_key_map_index(ids2, keys2, c);
        lemma_key_map_index(ids, keys, oc);
        assert(keys2[c] == keys[oc]);
    }
    assert(m2 =~= m.remove(gone));
}

/// Branch keys are distinct.
pub open spec fn distinct_keys(branches: Seq<BranchState>) -> bool {
    forall|i: int, j: int| 0 <= i < j < branches.len() ==> branches[i].key != branches[j].key
}

proof fn lemma_branch_index_unique(branches: Seq<BranchState>, key: FftBranchKey, b: int)
    requires
        distinct_keys(branches),
        0 <= b < branches.len(),
        branches[b].key == key,
    ensures
        branch_index(branches, key) == Some(b),
{
    let c = choose|c: int| 0 <= c < branches.len() && branches[c].key == key;
    if c != b {
        if c < b {
            assert(branches[c].key != branches[b].key);
        } else {
            assert(branches[b].key != branches[c].key);
        }
    }
}

/// Subscribing to a branch that exists and then ending that subscription
/// leaves the branches and the subscriptions as they were: compatible
/// subscribers share a branch, which stays until its last one leaves.
pub proof fn law_subscribe_then_unsubscribe(
    branches: Seq<BranchState>,
    subscriptions: Map<u64, FftBranchKey>,
    key: FftBranchKey,
    id: u64,
    b: int,
)
    requires
        distinct_keys(branches),
        0 <= b < branches.len(),
        branches[b].key == key,
        branches[b].consumers < usize::MAX,
        !subscriptions.contains_key(id),
    ensures
        ({
            let joined = branches.update(b, with_consumers(branches[b], branches[b].consumers + 1));
            &&& branch_index(joined, key) == Some(b)
            &&& joined[b].consumers >= 2 || branches[b].consumers == 0
            &&& joined[b].consumers != 1 ==> joined.update(b, with_consumers(joined[b], joined[b].consumers - 1)) == branches
            &&& subscriptions.insert(id, key).remove(id) == subscriptions
        }),
{
    let joined = branches.update(b, with_consumers(branches[b], branches[b].consumers + 1));
    assert(distinct_keys(joined)) by {
        assert forall|i: int, j: int| 0 <= i < j < joined.len() implies joined[i].key != joined[j].key by {
            assert(joined[i].key == branches[i].key);
            assert(joined[j].key == branches[j].key);
        }
    }
    lemma_branch_index_unique(joined, key, b);
    assert(joined.update(b, with_consumers(joined[b], joined[b].consumers - 1)) =~= branches);
    assert(subscriptions.insert(id, key).remove(id) =~= subscriptions);
}

/// One operation of a bank as far as subscription ids go: the id counter
/// never goes back, and an id handed out lies above the counter before the
/// operation and at most at the counter after it, as [`FftBank::subscribe`]
/// ensures; every other operation hands out none and keeps the counter or
/// raises it.
pub open spec fn id_step(before: BankState, after: BankState, handed: Option<u64>) -> bool {
    &&& after.next_subscription_id >= before.next_subscription_id
    &&& handed matches Some(id) ==> before.next_subscription_id < id <= after.next_subscription_id
}

/// Subscription ids are never handed out twice: over any run of operations,
/// the ids handed out strictly increase, even for equal keys and whatever
/// was unsubscribed in between, so no released id comes back.
pub proof fn law_subscription_ids_never_repeat(states: Seq<BankState>, handed: Seq<Option<u64>>)
    requires
        states.len() == handed.len() + 1,
        forall|k: int| 0 <= k < handed.len() ==> id_step(states[k], states[k + 1], #[trigger] handed[k]),
    ensures
        forall|i: int, j: int|
            0 <= i < j < handed.len() && handed[i] is Some && handed[j] is Some ==> (#[trigger] handed[i])->0
                < (#[trigger] handed[j])->0,
    decreases handed.len(),
{
    if handed.len() > 0 {
        let n = handed.len() - 1;
        law_subscription_ids_never_repeat(states.drop_last(), handed.drop_last());
        assert forall|k: int| 0 <= k <= n implies #[trigger] states[k].next_subscription_id <= states[n].next_subscription_id by {
            lemma_counter_rises(states, handed, k, n);
        }
        assert forall|i: int, j: int|
            0 <= i < j < handed.len() && handed[i] is Some && handed[j] is Some implies (#[trigger] handed[i])->0
                < (#[trigger] handed[j])->0 by {
            if j < n {
                assert(handed.drop_last()[i] == handed[i]);
                assert(handed.drop_last()[j] == handed[j]);
            } else {
                assert(id_step(states[i], states[i + 1], handed[i]));
                assert(id_step(states[n], states[n + 1], handed[n]));
                lemma_counter_rises(states, handed, i + 1, n);
            }
        }
    }
}

proof fn lemma_counter_rises(states: Seq<BankState>, handed: Seq<Option<u64>>, k: int, n: int)
    requires
        states.len() == handed.len() + 1,
        forall|m: int| 0 <= m < handed.len() ==> id_step(states[m], states[m + 1], #[trigger] handed[m]),
        0 <= k <= n < states.len(),
    ensures
        states[k].next_subscription_id <= states[n].next_subscription_id,
    decreases n - k,
{
    if k < n {
        assert(id_step(states[k], states[k + 1], handed[k]));
        lemma_counter_rises(states, handed, k + 1, n);
    }
}

/// A branch transforms a frame at most once: once a frame has been
/// transformed and recorded, offering the same frame again under any
/// subscription of that branch asks for nothing, and an older frame is
/// refused as stale.
pub proof fn law_frame_transformed_once(
    s: BankState,
    id: u64,
    frame_id: u64,
    bits: Seq<u32>,
    sample_rate: u32,
    key: FftBranchKey,
    fingerprint: u64,
    older_frame: u64,
)
    requires
        distinct_keys(s.branches),
        admission(s, id, frame_id, bits, sample_rate) == Ok::<FrameAdmission, FftError>(FrameAdmission::Transform { key, fingerprint }),
        branch_index(s.branches, key) is Some,
        older_frame < frame_id,
    ensures
        ({
            let b = branch_index(s.branches, key)->0;
            let t = BankState {
                branches: s.branches.update(b, after_transform(s.branches[b], frame_id, sample_rate, fingerprint)),
                ..s
            };
            &&& admission(t, id, frame_id, bits, sample_rate) == Ok::<FrameAdmission, FftError>(FrameAdmission::AlreadyTransformed)
            &&& admission(t, id, older_frame, bits, sample_rate) == Err::<FrameAdmission, FftError>(
                FftError::StaleFrame { latest: frame_id, received: older_frame },
            )
        }),
{
    let b = branch_index(s.branches, key)->0;
    let c = choose|c: int| 0 <= c < s.branches.len() && s.branches[c].key == key;
    assert(0 <= b < s.branches.len() && s.branches[b].key == key);
    let t = BankState {
        branches: s.branches.update(b, after_transform(s.branches[b], frame_id, sample_rate, fingerprint)),
        ..s
    };
    assert(distinct_keys(t.branches)) by {
        assert forall|i: int, j: int| 0 <= i < j < t.branches.len() implies t.branches[i].key != t.branches[j].key by {
            assert(t.branches[i].key == s.branches[i].key);
            assert(t.branches[j].key == s.branches[j].key);
        }
    }
    lemma_branch_index_unique(t.branches, key, b);
    assert(s.subscriptions[id] == key);
}


impl FftBank {
    /// Every subscription a bank holds has an id no greater than its id
    /// counter. Since `subscribe` hands out the counter's successor and
    /// raises the counter to it, and `unsubscribe` leaves the counter alone,
    /// an id is never handed out twice, not even after it was released.
    pub proof fn law_subscription_ids_below_counter(&self)
        requires
            self.inv(),
        ensures
            forall|id: u64| #[trigger] self@.subscriptions.contains_key(id) ==> id <= self@.next_subscription_id,
    {
        assert forall|id: u64| #[trigger] self@.subscriptions.contains_key(id) implies id <= self@.next_subscription_id by {
            let k = choose|k: int| 0 <= k < self.subscription_ids@.len() && self.subscription_ids@[k] == id;
        }
    }
}

} // verus!
