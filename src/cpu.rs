use vstd::prelude::*;
use vstd::string::StringSliceAdditionalSpecFns;
use vstd::utf8::valid_utf8;

verus! {

broadcast use vstd::array::group_array_axioms;

/// The identification leaf that reports the highest extended leaf.
pub const EXTENDED_LEAF: u32 = 0x80000000;

/// The first of the three leaves that hold the brand string.
pub const BRAND_LEAF_FIRST: u32 = 0x80000002;

/// The last of the three leaves that hold the brand string.
pub const BRAND_LEAF_LAST: u32 = 0x80000004;

/// The four registers that the identification instruction fills for one leaf.
#[derive(Clone, Copy, Debug, PartialEq, Eq, Structural)]
pub struct Registers {
    pub eax: u32,
    pub ebx: u32,
    pub ecx: u32,
    pub edx: u32,
}

/// `x` as four little-endian bytes.
pub open spec fn le_bytes(x: u32) -> Seq<u8> {
    seq![
        (x % 256) as u8,
        ((x / 256) % 256) as u8,
        ((x / 65536) % 256) as u8,
        (x / 16777216) as u8,
    ]
}

/// The twelve vendor bytes of leaf 0: `ebx`, `edx`, `ecx`, each little-endian.
pub open spec fn vendor_bytes(r: Registers) -> Seq<u8> {
    le_bytes(r.ebx) + le_bytes(r.edx) + le_bytes(r.ecx)
}

/// The sixteen bytes of one brand leaf: `eax`, `ebx`, `ecx`, `edx`, each
/// little-endian.
pub open spec fn leaf_bytes(r: Registers) -> Seq<u8> {
    le_bytes(r.eax) + le_bytes(r.ebx) + le_bytes(r.ecx) + le_bytes(r.edx)
}

/// The forty-eight brand bytes of the three brand leaves, in leaf order.
pub open spec fn brand_bytes(leaves: Seq<Registers>) -> Seq<u8> {
    leaf_bytes(leaves[0]) + leaf_bytes(leaves[1]) + leaf_bytes(leaves[2])
}

/// Whether `b` is padding around a brand string: a NUL or a space.
pub open spec fn is_pad(b: u8) -> bool {
    b == 0 || b == 32
}

/// `s` without its leading padding.
pub open spec fn trim_start(s: Seq<u8>) -> Seq<u8>
    decreases s.len(),
{
    if s.len() > 0 && is_pad(s[0]) {
        trim_start(s.drop_first())
    } else {
        s
    }
}

/// `s` without its trailing padding.
pub open spec fn trim_end(s: Seq<u8>) -> Seq<u8>
    decreases s.len(),
{
    if s.len() > 0 && is_pad(s.last()) {
        trim_end(s.drop_last())
    } else {
        s
    }
}

/// `s` without padding at either end. On valid UTF-8 this is the same as
/// trimming the characters NUL and space, which are one byte each.
pub open spec fn trim_pad(s: Seq<u8>) -> Seq<u8> {
    trim_end(trim_start(s))
}

/// Relies on `core::str::from_utf8`: it succeeds exactly when the bytes are
/// valid UTF-8.
#[verifier::external_body]
fn is_utf8(b: &[u8]) -> (r: bool)
    ensures
        r == valid_utf8(b@),
{
    core::str::from_utf8(b).is_ok()
}

/// Writes `x` little-endian into `buf` at `at .. at + 4`.
fn put_le<const N: usize>(buf: &mut [u8; N], at: usize, x: u32)
    requires
        at + 4 <= N,
    ensures
        final(buf)@.len() == N,
        forall|j: int|
            0 <= j < N && !(at <= j < at + 4) ==> #[trigger] final(buf)@[j] == old(buf)@[j],
        forall|k: int| 0 <= k < 4 ==> #[trigger] final(buf)@[at + k] == le_bytes(x)[k],
{
    buf[at] = (x % 256) as u8;
    buf[at + 1] = ((x / 256) % 256) as u8;
    buf[at + 2] = ((x / 65536) % 256) as u8;
    buf[at + 3] = (x / 16777216) as u8;
}

/// `s` without padding at either end.
pub fn trim_padding(s: &[u8]) -> (r: &[u8])
    ensures
        r@ == trim_pad(s@),
{
    let n = s.len();
    let mut start: usize = 0;
    assert(s@.subrange(0, n as int) =~= s@);
    while start < n && (s[start] == 0 || s[start] == 32)
        invariant
            n == s@.len(),
            start <= n,
            trim_start(s@) == trim_start(s@.subrange(start as int, n as int)),
        decreases n - start,
    {
        assert(s@.subrange(start as int, n as int).drop_first() =~= s@.subrange(
            start + 1,
            n as int,
        ));
        start += 1;
    }
    assert(trim_start(s@) == s@.subrange(start as int, n as int));
    let mut end: usize = n;
    while end > start && (s[end - 1] == 0 || s[end - 1] == 32)
        invariant
            n == s@.len(),
            start <= end <= n,
            trim_pad(s@) == trim_end(s@.subrange(start as int, end as int)),
        decreases end,
    {
        assert(s@.subrange(start as int, end as int).drop_last() =~= s@.subrange(
            start as int,
            end - 1,
        ));
        end -= 1;
    }
    vstd::slice::slice_subrange(s, start, end)
}

/// Writes the sixteen bytes of `leaf` into `buf` at `at .. at + 16`.
fn put_leaf(buf: &mut [u8; 48], at: usize, leaf: Registers)
    requires
        at + 16 <= 48,
    ensures
        final(buf)@.len() == 48,
        forall|j: int|
            0 <= j < 48 && !(at <= j < at + 16) ==> #[trigger] final(buf)@[j] == old(buf)@[j],
        forall|k: int| 0 <= k < 16 ==> #[trigger] final(buf)@[at + k] == leaf_bytes(leaf)[k],
{
    put_le(buf, at, leaf.eax);
    put_le(buf, at + 4, leaf.ebx);
    put_le(buf, at + 8, leaf.ecx);
    put_le(buf, at + 12, leaf.edx);
    assert forall|k: int| 0 <= k < 16 implies #[trigger] buf@[at + k] == leaf_bytes(leaf)[k] by {
        if k < 4 {
            assert(buf@[at + k] == le_bytes(leaf.eax)[k]);
        } else if k < 8 {
            assert(buf@[at + 4 + (k - 4)] == le_bytes(leaf.ebx)[k - 4]);
        } else if k < 12 {
            assert(buf@[at + 8 + (k - 8)] == le_bytes(leaf.ecx)[k - 8]);
        } else {
            assert(buf@[at + 12 + (k - 12)] == le_bytes(leaf.edx)[k - 12]);
        }
    }
}

/// Whether `info` is an identity that `query`, standing for the
/// identification instruction, can give: leaf 0, the extended leaf and, where
/// that reaches them, the three brand leaves are answers that `query` may
/// return for those leaves.
pub open spec fn reported_by<F: Fn(u32) -> Registers>(query: F, info: CpuInfo) -> bool {
    exists|leaf0: Registers, ext: Registers, leaves: Seq<Registers>|
        #![trigger info.describes(leaf0, ext.eax, leaves)]
        {
            &&& call_ensures(query, (0u32,), leaf0)
            &&& call_ensures(query, (EXTENDED_LEAF,), ext)
            &&& leaves.len() == 3
            &&& ext.eax >= BRAND_LEAF_LAST ==> forall|i: int|
                0 <= i < 3 ==> call_ensures(
                    query,
                    ((BRAND_LEAF_FIRST + i) as u32,),
                    #[trigger] leaves[i],
                )
            &&& info.describes(leaf0, ext.eax, leaves)
        }
}

/// The identity of the processor: its vendor string and, where the processor
/// reports one, its brand string.
pub struct CpuInfo {
    vendor: [u8; 12],
    brand: [u8; 48],
    has_brand: bool,
}

impl CpuInfo {
    /// The twelve vendor bytes.
    pub closed spec fn vendor(&self) -> Seq<u8> {
        self.vendor@
    }

    /// The forty-eight brand bytes; all zero where there is no brand string.
    pub closed spec fn brand(&self) -> Seq<u8> {
        self.brand@
    }

    /// Whether the processor reports a brand string.
    pub closed spec fn has_brand(&self) -> bool {
        self.has_brand
    }

    /// What leaf 0 (`leaf0`), the highest extended leaf (`max_extended`) and
    /// the three brand leaves (`leaves`, read only where `max_extended` reaches
    /// them) describe.
    pub open spec fn describes(
        &self,
        leaf0: Registers,
        max_extended: u32,
        leaves: Seq<Registers>,
    ) -> bool {
        &&& self.vendor() == vendor_bytes(leaf0)
        &&& self.has_brand() == (max_extended >= BRAND_LEAF_LAST)
        &&& self.brand() == if self.has_brand() {
            brand_bytes(leaves)
        } else {
            Seq::new(48, |i: int| 0u8)
        }
    }

    /// The vendor string's bytes, or `Unknown` where they are not UTF-8.
    pub open spec fn vendor_text(&self) -> Seq<u8> {
        if valid_utf8(self.vendor()) {
            self.vendor()
        } else {
            "Unknown".spec_bytes()
        }
    }

    /// The brand string's bytes without padding (`Unknown` where they are not
    /// UTF-8); the vendor text where there is no brand string.
    pub open spec fn brand_text(&self) -> Seq<u8> {
        if self.has_brand() {
            trim_pad(
                if valid_utf8(self.brand()) {
                    self.brand()
                } else {
                    "Unknown".spec_bytes()
                },
            )
        } else {
            self.vendor_text()
        }
    }

    /// The vendor string's bytes, or those of `Unknown` where they are not
    /// UTF-8.
    pub fn vendor_str(&self) -> (r: &[u8])
        ensures
            r@ == self.vendor_text(),
    {
        let v = self.vendor.as_slice();
        if is_utf8(v) {
            v
        } else {
            "Unknown".as_bytes()
        }
    }

    /// The brand string's bytes without leading or trailing NULs and spaces
    /// (`Unknown` where they are not UTF-8); the vendor string where the
    /// processor reports no brand.
    pub fn brand_str(&self) -> (r: &[u8])
        ensures
            r@ == self.brand_text(),
            !self.has_brand() ==> r@ == self.vendor_text(),
    {
        if self.has_brand {
            let b = self.brand.as_slice();
            if is_utf8(b) {
                trim_padding(b)
            } else {
                trim_padding("Unknown".as_bytes())
            }
        } else {
            self.vendor_str()
        }
    }

    /// Reads the identity through `query`, which executes the identification
    /// instruction for a leaf: leaf 0 for the vendor, the extended leaf for
    /// the highest extended leaf, and the three brand leaves only where that
    /// reaches them.
    pub fn detect<F: Fn(u32) -> Registers>(query: F) -> (r: CpuInfo)
        requires
            forall|leaf: u32| call_requires(query, (leaf,)),
        ensures
            reported_by(query, r),
    {
        let leaf0 = query(0);
        let ext = query(EXTENDED_LEAF);
        let zero = Registers { eax: 0, ebx: 0, ecx: 0, edx: 0 };
        let mut leaves = [zero, zero, zero];
        if ext.eax >= BRAND_LEAF_LAST {
            let mut i: u32 = 0;
            while i < 3
                invariant
                    i <= 3,
                    leaves@.len() == 3,
                    forall|leaf: u32| call_requires(query, (leaf,)),
                    forall|k: int|
                        0 <= k < i ==> call_ensures(
                            query,
                            ((BRAND_LEAF_FIRST + k) as u32,),
                            #[trigger] leaves@[k],
                        ),
                decreases 3 - i,
            {
                let regs = query(BRAND_LEAF_FIRST + i);
                leaves[i as usize] = regs;
                i += 1;
            }
        }
        let r = CpuInfo::from_leaves(leaf0, ext.eax, leaves);
        assert(r.describes(leaf0, ext.eax, leaves@));
        r
    }

    /// Builds the identity from the registers of leaf 0, the highest extended
    /// leaf, and the three brand leaves (ignored where `max_extended` is below
    /// the last brand leaf).
    pub fn from_leaves(leaf0: Registers, max_extended: u32, leaves: [Registers; 3]) -> (r: CpuInfo)
        ensures
            r.describes(leaf0, max_extended, leaves@),
    {
        let mut vendor = [0u8; 12];
        put_le(&mut vendor, 0, leaf0.ebx);
        put_le(&mut vendor, 4, leaf0.edx);
        put_le(&mut vendor, 8, leaf0.ecx);
        assert forall|j: int| 0 <= j < 12 implies #[trigger] vendor@[j] == vendor_bytes(leaf0)[j] by {
            if j < 4 {
                assert(vendor@[0 + j] == le_bytes(leaf0.ebx)[j]);
            } else if j < 8 {
                assert(vendor@[4 + (j - 4)] == le_bytes(leaf0.edx)[j - 4]);
            } else {
                assert(vendor@[8 + (j - 8)] == le_bytes(leaf0.ecx)[j - 8]);
            }
        }
        assert(vendor@ =~= vendor_bytes(leaf0));
        let mut brand = [0u8; 48];
        let has_brand = max_extended >= BRAND_LEAF_LAST;
        if has_brand {
            put_leaf(&mut brand, 0, leaves[0]);
            put_leaf(&mut brand, 16, leaves[1]);
            put_leaf(&mut brand, 32, leaves[2]);
            assert forall|j: int| 0 <= j < 48 implies #[trigger] brand@[j] == brand_bytes(
                leaves@,
            )[j] by {
                if j < 16 {
                    assert(brand@[0 + j] == leaf_bytes(leaves@[0])[j]);
                } else if j < 32 {
                    assert(brand@[16 + (j - 16)] == leaf_bytes(leaves@[1])[j - 16]);
                } else {
                    assert(brand@[32 + (j - 32)] == leaf_bytes(leaves@[2])[j - 32]);
                }
            }
            assert(brand@ =~= brand_bytes(leaves@));
        } else {
            assert(brand@ =~= Seq::new(48, |i: int| 0u8));
        }
        CpuInfo { vendor, brand, has_brand }
    }
}

/// Where the identification instruction always answers leaf 0 with
/// `leaf0`, the detected vendor string is the twelve bytes `ebx`, `edx`,
/// `ecx` of `leaf0`, little-endian, provided those bytes are UTF-8 (else it
/// is `Unknown`).
pub proof fn lemma_vendor_string_is_packed_registers<F: Fn(u32) -> Registers>(
    query: F,
    leaf0: Registers,
    info: CpuInfo,
)
    requires
        forall|r: Registers| call_ensures(query, (0u32,), r) ==> r == leaf0,
        reported_by(query, info),
        valid_utf8(vendor_bytes(leaf0)),
    ensures
        info.vendor_text().len() == 12,
        info.vendor_text() == vendor_bytes(leaf0),
{
    let (l0, ext, leaves) = choose|l0: Registers, ext: Registers, leaves: Seq<Registers>|
        {
            &&& call_ensures(query, (0u32,), l0)
            &&& call_ensures(query, (EXTENDED_LEAF,), ext)
            &&& leaves.len() == 3
            &&& ext.eax >= BRAND_LEAF_LAST ==> forall|i: int|
                0 <= i < 3 ==> call_ensures(
                    query,
                    ((BRAND_LEAF_FIRST + i) as u32,),
                    #[trigger] leaves[i],
                )
            &&& #[trigger] info.describes(l0, ext.eax, leaves)
        };
    assert(l0 == leaf0);
}

/// Where the processor reports no brand string, the brand string is the
/// vendor string.
pub proof fn lemma_brand_falls_back_to_vendor(info: CpuInfo)
    requires
        !info.has_brand(),
    ensures
        info.brand_text() == info.vendor_text(),
{
}

} // verus!
