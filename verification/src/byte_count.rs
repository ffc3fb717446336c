//! Byte accounting over the UDP stack: what a set of datagrams weighs at
//! each layer, and the order on request/reply pairs that drives the search
//! for amplification.
use vstd::prelude::*;
use vstd::std_specs::cmp::PartialOrdSpecImpl;
use core::cmp::Ordering;

verus! {

pub const UDP_HEADER_SIZE: usize = 8;

pub const IPV4_HEADER_SIZE: usize = 20;

pub const ETH_HEADER_SIZE: usize = 16;

pub const MIN_ETH_FRAME_SIZE: usize = 64;

/// A layer of the stack at which sizes are taken.
#[derive(Debug, Clone, Copy, PartialEq, Eq, Structural)]
pub enum Layer {
    /// The payload alone.
    L7,
    /// Payload and UDP header.
    L4,
    /// The IPv4 packet.
    L3,
    /// The Ethernet frame, padded to the minimum frame size.
    L2,
}

/// Size at `layer` of one datagram with `l7` payload bytes.
pub open spec fn frame_of(layer: Layer, l7: int) -> int {
    match layer {
        Layer::L7 => l7,
        Layer::L4 => l7 + 8,
        Layer::L3 => l7 + 8 + 20,
        Layer::L2 => if l7 + 8 + 20 + 16 >= 64 {
            l7 + 8 + 20 + 16
        } else {
            64
        },
    }
}

/// Sum over all datagrams of their size at `layer`.
pub open spec fn total(l7: Seq<usize>, layer: Layer) -> int
    decreases l7.len(),
{
    if l7.len() == 0 {
        0
    } else {
        total(l7.drop_last(), layer) + frame_of(layer, l7.last() as int)
    }
}

/// The total of a sequence grows by one frame when a datagram is appended.
pub proof fn lemma_total_push(l7: Seq<usize>, x: usize, layer: Layer)
    ensures
        total(l7.push(x), layer) == total(l7, layer) + frame_of(layer, x as int),
{
    assert(l7.push(x).drop_last() =~= l7);
}

/// No layer weighs less than the payload, and none more than the frames.
pub proof fn lemma_total_bounds(l7: Seq<usize>, layer: Layer)
    ensures
        0 <= total(l7, Layer::L7) <= total(l7, layer) <= total(l7, Layer::L2),
    decreases l7.len(),
{
    if l7.len() > 0 {
        lemma_total_bounds(l7.drop_last(), layer);
    }
}

/// A prefix weighs no more than the whole.
pub proof fn lemma_total_prefix(l7: Seq<usize>, k: int, layer: Layer)
    requires
        0 <= k <= l7.len(),
    ensures
        0 <= total(l7.take(k), layer) <= total(l7, layer),
    decreases l7.len(),
{
    lemma_total_bounds(l7.take(k), layer);
    if k == l7.len() {
        assert(l7.take(k) =~= l7);
    } else {
        lemma_total_prefix(l7.drop_last(), k, layer);
        assert(l7.drop_last().take(k) =~= l7.take(k));
    }
}

/// The totals of a concatenation add up.
pub proof fn lemma_total_concat(a: Seq<usize>, b: Seq<usize>, layer: Layer)
    ensures
        total(a + b, layer) == total(a, layer) + total(b, layer),
    decreases b.len(),
{
    if b.len() == 0 {
        assert(a + b =~= a);
    } else {
        lemma_total_concat(a, b.drop_last(), layer);
        assert((a + b).drop_last() =~= a + b.drop_last());
    }
}

/// How the layers of one datagram relate: the UDP header adds 8 bytes, the
/// IPv4 header 20, the Ethernet header 16, and a frame has at least 64.
pub proof fn lemma_frame_layers(l7: int)
    ensures
        frame_of(Layer::L4, l7) == frame_of(Layer::L7, l7) + 8,
        frame_of(Layer::L3, l7) == frame_of(Layer::L4, l7) + 20,
        frame_of(Layer::L2, l7) == (if frame_of(Layer::L3, l7) + 16 >= 64 {
            frame_of(Layer::L3, l7) + 16
        } else {
            64
        }),
{
}

/// How the layers of `n` datagrams relate: each header is paid once per
/// datagram, and a frame is never shorter than the minimum.
pub proof fn lemma_layer_sizes(l7: Seq<usize>)
    ensures
        total(l7, Layer::L4) == total(l7, Layer::L7) + 8 * l7.len(),
        total(l7, Layer::L3) == total(l7, Layer::L4) + 20 * l7.len(),
        total(l7, Layer::L2) >= total(l7, Layer::L3) + 16 * l7.len(),
        total(l7, Layer::L2) >= 64 * l7.len(),
        (forall|i: int| 0 <= i < l7.len() ==> l7[i] >= 20) ==> total(l7, Layer::L2) == total(
            l7,
            Layer::L3,
        ) + 16 * l7.len(),
    decreases l7.len(),
{
    if l7.len() > 0 {
        lemma_layer_sizes(l7.drop_last());
    }
}

/// The payload lengths of a set of UDP datagrams.
#[derive(Debug, PartialEq, Eq)]
pub struct UdpByteCount {
    l7: Vec<usize>,
}

impl View for UdpByteCount {
    type V = Seq<usize>;

    /// The payload lengths, in the order in which they were counted.
    closed spec fn view(&self) -> Seq<usize> {
        self.l7@
    }
}

fn frame_size(layer: Layer, l7: usize) -> (r: usize)
    requires
        frame_of(layer, l7 as int) <= usize::MAX,
    ensures
        r == frame_of(layer, l7 as int),
{
    match layer {
        Layer::L7 => l7,
        Layer::L4 => l7 + UDP_HEADER_SIZE,
        Layer::L3 => l7 + UDP_HEADER_SIZE + IPV4_HEADER_SIZE,
        Layer::L2 => {
            let l3: usize = l7 + UDP_HEADER_SIZE + IPV4_HEADER_SIZE;
            if l3 + ETH_HEADER_SIZE >= MIN_ETH_FRAME_SIZE {
                l3 + ETH_HEADER_SIZE
            } else {
                MIN_ETH_FRAME_SIZE
            }
        },
    }
}

impl UdpByteCount {
    /// Every total fits the machine word.
    #[verifier::type_invariant]
    closed spec fn fits(&self) -> bool {
        total(self.l7@, Layer::L2) <= usize::MAX
    }

    /// The count of no datagram at all.
    pub fn new() -> (count: Self)
        ensures
            count@ == Seq::<usize>::empty(),
    {
        UdpByteCount { l7: Vec::new() }
    }

    /// The count of a single datagram with `l7_size` payload bytes.
    pub fn from_l7(l7_size: usize) -> (count: Self)
        requires
            frame_of(Layer::L2, l7_size as int) <= usize::MAX,
        ensures
            count@ == seq![l7_size],
    {
        let mut l7: Vec<usize> = Vec::new();
        l7.push(l7_size);
        proof {
            assert(l7@ =~= seq![l7_size]);
            assert(l7@.drop_last() =~= Seq::<usize>::empty());
            assert(total(l7@.drop_last(), Layer::L2) == 0);
        }
        UdpByteCount { l7 }
    }

    /// The payload lengths, in the order in which they were counted.
    pub fn payloads(&self) -> (l7: &Vec<usize>)
        ensures
            l7@ == self@,
    {
        &self.l7
    }

    /// Number of datagrams counted.
    pub fn len(&self) -> (n: usize)
        ensures
            n == self@.len(),
    {
        self.l7.len()
    }

    /// Sum of the datagrams' sizes at `layer`.
    pub fn size_at(&self, layer: Layer) -> (r: usize)
        ensures
            r == total(self@, layer),
    {
        proof {
            use_type_invariant(self);
        }
        let mut sum: usize = 0;
        let mut i: usize = 0;
        while i < self.l7.len()
            invariant
                i <= self.l7.len(),
                sum == total(self.l7@.take(i as int), layer),
                total(self.l7@, Layer::L2) <= usize::MAX,
            decreases self.l7.len() - i,
        {
            proof {
                let next = self.l7@.take(i + 1);
                assert(next.drop_last() =~= self.l7@.take(i as int));
                lemma_total_prefix(self.l7@, i + 1, layer);
                lemma_total_bounds(self.l7@, layer);
                lemma_total_bounds(self.l7@.take(i as int), layer);
            }
            sum = sum + frame_size(layer, self.l7[i]);
            i = i + 1;
        }
        proof {
            assert(self.l7@.take(i as int) =~= self.l7@);
        }
        sum
    }

    pub fn l7_size(&self) -> (r: usize)
        ensures
            r == total(self@, Layer::L7),
    {
        self.size_at(Layer::L7)
    }

    pub fn l4_size(&self) -> (r: usize)
        ensures
            r == total(self@, Layer::L4),
    {
        self.size_at(Layer::L4)
    }

    pub fn l3_size(&self) -> (r: usize)
        ensures
            r == total(self@, Layer::L3),
    {
        self.size_at(Layer::L3)
    }

    pub fn l2_size(&self) -> (r: usize)
        ensures
            r == total(self@, Layer::L2),
    {
        self.size_at(Layer::L2)
    }

    /// Whether one more datagram of `l7_size` payload bytes can be counted
    /// without a total leaving the machine word.
    pub fn has_room_for(&self, l7_size: usize) -> (b: bool)
        ensures
            b == (total(self@, Layer::L2) + frame_of(Layer::L2, l7_size as int) <= usize::MAX),
    {
        let used: usize = self.size_at(Layer::L2);
        if l7_size > usize::MAX - 44 {
            false
        } else {
            let frame: usize = frame_size(Layer::L2, l7_size);
            frame <= usize::MAX - used
        }
    }

    /// Counts one more datagram.
    pub fn push(&mut self, l7_size: usize)
        requires
            total(old(self)@, Layer::L2) + frame_of(Layer::L2, l7_size as int) <= usize::MAX,
        ensures
            final(self)@ == old(self)@.push(l7_size),
    {
        let mut taken = UdpByteCount::new();
        core::mem::swap(self, &mut taken);
        let mut l7: Vec<usize> = taken.l7;
        proof {
            lemma_total_push(l7@, l7_size, Layer::L2);
        }
        l7.push(l7_size);
        *self = UdpByteCount { l7 };
    }

    /// Counts the datagrams of `rhs` after those already counted.
    pub fn append(&mut self, rhs: &UdpByteCount)
        requires
            total(old(self)@, Layer::L2) + total(rhs@, Layer::L2) <= usize::MAX,
        ensures
            final(self)@ == old(self)@ + rhs@,
    {
        let mut taken = UdpByteCount::new();
        core::mem::swap(self, &mut taken);
        let mut l7: Vec<usize> = taken.l7;
        let ghost before = l7@;
        let mut i: usize = 0;
        while i < rhs.l7.len()
            invariant
                i <= rhs.l7.len(),
                l7@ == before + rhs.l7@.take(i as int),
            decreases rhs.l7.len() - i,
        {
            proof {
                assert(before + rhs.l7@.take(i + 1) =~= l7@.push(rhs.l7@[i as int]));
            }
            l7.push(rhs.l7[i]);
            i = i + 1;
        }
        proof {
            assert(rhs.l7@.take(i as int) =~= rhs.l7@);
            lemma_total_concat(before, rhs.l7@, Layer::L2);
        }
        *self = UdpByteCount { l7 };
    }

    /// Whether both counts hold the same lengths in the same order.
    pub fn same(&self, other: &UdpByteCount) -> (b: bool)
        ensures
            b == (self@ == other@),
    {
        if self.l7.len() != other.l7.len() {
            return false;
        }
        let mut i: usize = 0;
        while i < self.l7.len()
            invariant
                i <= self.l7.len(),
                self.l7.len() == other.l7.len(),
                self.l7@.take(i as int) == other.l7@.take(i as int),
            decreases self.l7.len() - i,
        {
            if self.l7[i] != other.l7[i] {
                proof {
                    assert(self.l7@[i as int] != other.l7@[i as int]);
                }
                return false;
            }
            proof {
                assert(self.l7@.take(i + 1) =~= self.l7@.take(i as int).push(self.l7@[i as int]));
                assert(other.l7@.take(i + 1) =~= other.l7@.take(i as int).push(
                    other.l7@[i as int],
                ));
            }
            i = i + 1;
        }
        proof {
            assert(self.l7@.take(i as int) =~= self.l7@);
            assert(other.l7@.take(i as int) =~= other.l7@);
        }
        true
    }
}

impl Clone for UdpByteCount {
    fn clone(&self) -> (count: Self)
        ensures
            count@ == self@,
    {
        proof {
            use_type_invariant(self);
        }
        let l7: Vec<usize> = self.l7.clone();
        proof {
            assert(l7@ =~= self.l7@);
        }
        UdpByteCount { l7 }
    }
}

impl Default for UdpByteCount {
    fn default() -> (count: Self)
        ensures
            count@ == Seq::<usize>::empty(),
    {
        UdpByteCount::new()
    }
}

/// How `a` stands to `b`.
pub open spec fn order_of(a: int, b: int) -> Ordering {
    if a < b {
        Ordering::Less
    } else if a == b {
        Ordering::Equal
    } else {
        Ordering::Greater
    }
}

/// How the ratio `out_s / in_s` stands to `out_o / in_o`, decided on the
/// cross products. Where either request is empty the replies alone are
/// compared.
pub open spec fn cross_order(in_s: int, out_s: int, in_o: int, out_o: int) -> Ordering {
    if in_s > 0 && in_o > 0 {
        order_of(out_s * in_o, out_o * in_s)
    } else {
        order_of(out_s, out_o)
    }
}

/// The value of a machine word.
pub open spec fn word(x: usize) -> int {
    x as int
}

fn mul_wide(a: usize, b: usize) -> (r: u128)
    ensures
        r == a * b,
{
    assert(a * b <= 0xFFFF_FFFF_FFFF_FFFF * 0xFFFF_FFFF_FFFF_FFFF) by (nonlinear_arith)
        requires
            0 <= a <= 0xFFFF_FFFF_FFFF_FFFF,
            0 <= b <= 0xFFFF_FFFF_FFFF_FFFF,
    ;
    (a as u128) * (b as u128)
}

fn order_wide(a: u128, b: u128) -> (r: Ordering)
    ensures
        r == order_of(a + 0, b + 0),
{
    if a < b {
        Ordering::Less
    } else if a == b {
        Ordering::Equal
    } else {
        Ordering::Greater
    }
}

/// A request and the replies it drew.
#[derive(Debug, PartialEq, Eq)]
pub struct AmpByteCount {
    pub bytes_in: UdpByteCount,
    pub bytes_out: UdpByteCount,
}

/// The value of a request and its replies: the payload lengths on each side.
pub struct AmpView {
    pub bytes_in: Seq<usize>,
    pub bytes_out: Seq<usize>,
}

impl AmpView {
    /// How `self` stands to `other` at one layer.
    pub open spec fn layer_order(self, other: AmpView, layer: Layer) -> Ordering {
        cross_order(
            total(self.bytes_in, layer),
            total(self.bytes_out, layer),
            total(other.bytes_in, layer),
            total(other.bytes_out, layer),
        )
    }

    /// How `self` stands to `other`: the first layer of L2, L3, L4, L7 at
    /// which they differ decides.
    pub open spec fn amp_order(self, other: AmpView) -> Ordering {
        if self.layer_order(other, Layer::L2) != Ordering::Equal {
            self.layer_order(other, Layer::L2)
        } else if self.layer_order(other, Layer::L3) != Ordering::Equal {
            self.layer_order(other, Layer::L3)
        } else if self.layer_order(other, Layer::L4) != Ordering::Equal {
            self.layer_order(other, Layer::L4)
        } else {
            self.layer_order(other, Layer::L7)
        }
    }

    /// `self` amplifies strictly more than `other`.
    pub open spec fn beats(self, other: AmpView) -> bool {
        self.amp_order(other) == Ordering::Greater
    }

    /// `self` amplifies at least as much as `other`.
    pub open spec fn at_least(self, other: AmpView) -> bool {
        self.amp_order(other) != Ordering::Less
    }

    /// The factor by which `self` amplifies at the frame layer is smaller
    /// than that of `other`: the ratios of reply bytes to request bytes are
    /// compared exactly, and a pair without request has the factor zero.
    pub open spec fn factor_below(self, other: AmpView) -> bool {
        let in_s = total(self.bytes_in, Layer::L2);
        let in_o = total(other.bytes_in, Layer::L2);
        let num_s = if in_s > 0 {
            total(self.bytes_out, Layer::L2)
        } else {
            0
        };
        let num_o = if in_o > 0 {
            total(other.bytes_out, Layer::L2)
        } else {
            0
        };
        let den_s = if in_s > 0 {
            in_s
        } else {
            1
        };
        let den_o = if in_o > 0 {
            in_o
        } else {
            1
        };
        num_s * den_o < num_o * den_s
    }

    /// The pair in which nothing was sent and nothing came back.
    pub open spec fn nothing() -> AmpView {
        AmpView { bytes_in: Seq::empty(), bytes_out: Seq::empty() }
    }
}

impl View for AmpByteCount {
    type V = AmpView;

    open spec fn view(&self) -> AmpView {
        AmpView { bytes_in: self.bytes_in@, bytes_out: self.bytes_out@ }
    }
}

impl AmpByteCount {
    /// How `self` stands to `other` at one layer.
    pub open spec fn layer_order(self, other: AmpByteCount, layer: Layer) -> Ordering {
        self@.layer_order(other@, layer)
    }

    /// How `self` stands to `other`: the first layer of L2, L3, L4, L7 at
    /// which they differ decides.
    pub open spec fn amp_order(self, other: AmpByteCount) -> Ordering {
        self@.amp_order(other@)
    }

    /// Both counts hold the same datagrams.
    pub open spec fn same_counts(self, other: AmpByteCount) -> bool {
        self@ == other@
    }

    /// The pair in which nothing was sent and nothing came back.
    pub fn new() -> (amp: Self)
        ensures
            amp.bytes_in@ == Seq::<usize>::empty(),
            amp.bytes_out@ == Seq::<usize>::empty(),
    {
        AmpByteCount { bytes_in: UdpByteCount::new(), bytes_out: UdpByteCount::new() }
    }

    /// Compares two ratios of reply bytes to request bytes.
    pub fn cmp_amp(
        self_bytes_in: usize,
        self_bytes_out: usize,
        other_bytes_in: usize,
        other_bytes_out: usize,
    ) -> (r: Ordering)
        ensures
            r == cross_order(
                word(self_bytes_in),
                word(self_bytes_out),
                word(other_bytes_in),
                word(other_bytes_out),
            ),
    {
        if self_bytes_in > 0 && other_bytes_in > 0 {
            order_wide(
                mul_wide(self_bytes_out, other_bytes_in),
                mul_wide(other_bytes_out, self_bytes_in),
            )
        } else if self_bytes_out < other_bytes_out {
            Ordering::Less
        } else if self_bytes_out == other_bytes_out {
            Ordering::Equal
        } else {
            Ordering::Greater
        }
    }

    fn cmp_layer(&self, other: &Self, layer: Layer) -> (r: Ordering)
        ensures
            r == self.layer_order(*other, layer),
    {
        Self::cmp_amp(
            self.bytes_in.size_at(layer),
            self.bytes_out.size_at(layer),
            other.bytes_in.size_at(layer),
            other.bytes_out.size_at(layer),
        )
    }

    /// Orders two pairs by their amplification, layer by layer.
    pub fn cmp(&self, other: &Self) -> (r: Ordering)
        ensures
            r == self.amp_order(*other),
    {
        let l2 = self.cmp_layer(other, Layer::L2);
        if !matches!(l2, Ordering::Equal) {
            return l2;
        }
        let l3 = self.cmp_layer(other, Layer::L3);
        if !matches!(l3, Ordering::Equal) {
            return l3;
        }
        let l4 = self.cmp_layer(other, Layer::L4);
        if !matches!(l4, Ordering::Equal) {
            return l4;
        }
        self.cmp_layer(other, Layer::L7)
    }

    /// Whether `self` amplifies strictly more than `other`.
    pub fn exceeds(&self, other: &Self) -> (b: bool)
        ensures
            b == self@.beats(other@),
    {
        matches!(self.cmp(other), Ordering::Greater)
    }

    /// Whether the factor by which `self` amplifies at the frame layer is
    /// smaller than that of `other`.
    pub fn factor_below(&self, other: &Self) -> (b: bool)
        ensures
            b == self@.factor_below(other@),
    {
        let in_s = self.bytes_in.size_at(Layer::L2);
        let in_o = other.bytes_in.size_at(Layer::L2);
        let num_s = if in_s > 0 {
            self.bytes_out.size_at(Layer::L2)
        } else {
            0
        };
        let num_o = if in_o > 0 {
            other.bytes_out.size_at(Layer::L2)
        } else {
            0
        };
        let den_s = if in_s > 0 {
            in_s
        } else {
            1
        };
        let den_o = if in_o > 0 {
            in_o
        } else {
            1
        };
        mul_wide(num_s, den_o) < mul_wide(num_o, den_s)
    }

    /// The frame-layer sizes of replies and request: numerator and
    /// denominator of the amplification factor.
    pub fn factor_parts(&self) -> (parts: (usize, usize))
        ensures
            parts.0 == total(self@.bytes_out, Layer::L2),
            parts.1 == total(self@.bytes_in, Layer::L2),
    {
        (self.bytes_out.size_at(Layer::L2), self.bytes_in.size_at(Layer::L2))
    }

    /// Whether both pairs hold the same datagrams.
    pub fn same(&self, other: &Self) -> (b: bool)
        ensures
            b == self.same_counts(*other),
    {
        self.bytes_in.same(&other.bytes_in) && self.bytes_out.same(&other.bytes_out)
    }
}

impl Clone for AmpByteCount {
    fn clone(&self) -> (amp: Self)
        ensures
            amp.same_counts(*self),
    {
        AmpByteCount { bytes_in: self.bytes_in.clone(), bytes_out: self.bytes_out.clone() }
    }
}

impl Default for AmpByteCount {
    fn default() -> (amp: Self)
        ensures
            amp.bytes_in@ == Seq::<usize>::empty(),
            amp.bytes_out@ == Seq::<usize>::empty(),
    {
        AmpByteCount::new()
    }
}

impl PartialOrd for AmpByteCount {
    fn partial_cmp(&self, other: &Self) -> (r: Option<Ordering>) {
        Some(self.cmp(other))
    }
}

impl PartialOrdSpecImpl for AmpByteCount {
    open spec fn obeys_partial_cmp_spec() -> bool {
        true
    }

    open spec fn partial_cmp_spec(&self, other: &Self) -> Option<Ordering> {
        Some(self.amp_order(*other))
    }
}

/// Swapping the two sides of a comparison mirrors its result.
pub proof fn lemma_amp_order_mirror(x: AmpView, y: AmpView)
    ensures
        x.amp_order(y) == Ordering::Less <==> y.amp_order(x) == Ordering::Greater,
        x.amp_order(y) == Ordering::Greater <==> y.amp_order(x) == Ordering::Less,
        x.amp_order(y) == Ordering::Equal <==> y.amp_order(x) == Ordering::Equal,
{
}

/// Two pairs compare equal exactly when they tie at each of the four layers.
pub proof fn lemma_amp_order_equal_iff_ties(x: AmpView, y: AmpView)
    ensures
        x.amp_order(y) == Ordering::Equal <==> (x.layer_order(y, Layer::L2) == Ordering::Equal
            && x.layer_order(y, Layer::L3) == Ordering::Equal && x.layer_order(y, Layer::L4)
            == Ordering::Equal && x.layer_order(y, Layer::L7) == Ordering::Equal),
{
}

/// Where neither of two pairs exceeds the other, they compare equal.
pub proof fn lemma_amp_order_antisymmetric(x: AmpView, y: AmpView)
    requires
        x.amp_order(y) != Ordering::Greater,
        y.amp_order(x) != Ordering::Greater,
    ensures
        x.amp_order(y) == Ordering::Equal,
        y.amp_order(x) == Ordering::Equal,
{
    lemma_amp_order_mirror(x, y);
}

/// A pair compares equal to itself and to every pair with the same counts.
pub proof fn lemma_amp_order_reflexive(x: AmpView, y: AmpView)
    requires
        x == y,
    ensures
        x.amp_order(y) == Ordering::Equal,
        !x.beats(y),
        x.at_least(y),
{
}

} // verus!
