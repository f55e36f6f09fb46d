use vstd::bytes::spec_u64_from_le_bytes;
use vstd::bytes::u64_from_le_bytes;
use vstd::prelude::*;
use vstd::slice::slice_subrange;
use vstd::utf8::valid_utf8;

use crate::detect::is_supported;
use crate::detect::spec_is_supported;
use crate::error::ResolveError;
use crate::version::digits_part;
use crate::version::first_component;
use crate::version::lemma_dec_value_nonneg;
use crate::version::major_of;
use crate::version::parses_as_major;
use crate::version::version_major;
use crate::version::version_major_result;
use crate::version::version_window;
use crate::version::VERSION_END;

verus! {

/// Header offset of the base-address field for images whose major version is
/// at or above [`MODERN_VERSION_THRESHOLD`].
pub const BASE_OFFSET_MODERN: usize = 0x300;

/// Header offset of the base-address field for older images.
pub const BASE_OFFSET_LEGACY: usize = 0x318;

/// Major versions at or above this firmware-generation boundary carry the
/// base-address field at the modern offset. An exact historical constant.
pub const MODERN_VERSION_THRESHOLD: u64 = 6603;

/// Size of the base-address field: a little-endian 64-bit word.
pub const BASE_FIELD_SIZE: usize = 8;

/// Byte order for interpreting in-memory data.
#[derive(Clone, Copy, Debug, PartialEq, Eq, Structural)]
pub enum Endianness {
    Little,
    Big,
}

/// Rendering semantics of a memory region.
#[derive(Clone, Copy, Debug, PartialEq, Eq, Structural)]
pub enum Semantics {
    ReadOnlyCode,
}

/// Kind of a synthesized symbol.
#[derive(Clone, Copy, Debug, PartialEq, Eq, Structural)]
pub enum SymbolKind {
    Function,
}

/// A named, typed location. Exactly one symbol is synthesized per resolved
/// image; its name is fixed, see [`Symbol::name`].
#[derive(Clone, Copy, Debug, PartialEq, Eq, Structural)]
pub struct Symbol {
    pub kind: SymbolKind,
    pub address: u64,
}

impl Symbol {
    /// The name under which the symbol is defined.
    pub fn name(&self) -> (r: &'static str)
        ensures
            r@ == "_start"@,
    {
        "_start"
    }
}

/// One contiguous mapping: a start address, a length, the backing byte range
/// of the raw image (untransformed, one to one), and permission and
/// semantics flags.
#[derive(Clone, Copy, Debug, PartialEq, Eq, Structural)]
pub struct MemoryRegion {
    pub start: u64,
    pub length: u64,
    /// Offset of the first backing byte within the raw image.
    pub backing_offset: u64,
    /// How many raw-image bytes back the region.
    pub backing_length: u64,
    pub readable: bool,
    pub writable: bool,
    pub executable: bool,
    pub contains_code: bool,
    pub contains_data: bool,
    pub semantics: Semantics,
}

impl MemoryRegion {
    /// First address past the region: the region covers `[start, end())`.
    pub open spec fn end(self) -> int {
        self.start + self.length
    }
}

/// The layout descriptor of a resolved image: its base address, its single
/// memory region, its entry point, and its single `_start` symbol.
#[derive(Clone, Copy, Debug, PartialEq, Eq, Structural)]
pub struct ImageLayout {
    pub base_address: u64,
    pub region: MemoryRegion,
    pub entry_point: u64,
    pub symbol: Symbol,
}

impl ImageLayout {
    /// Address size of this architecture family, in bytes.
    pub fn address_size(&self) -> (r: usize)
        ensures
            r == 8,
    {
        8
    }

    /// Default byte order for interpreting in-memory data.
    pub fn default_endianness(&self) -> (r: Endianness)
        ensures
            r == Endianness::Little,
    {
        Endianness::Little
    }

    /// Architecture identifier handed to the consuming framework.
    pub fn architecture(&self) -> (r: &'static str)
        ensures
            r@ == "aarch64"@,
    {
        "aarch64"
    }
}

/// The header offset holding the base-address field for a given major
/// version.
pub open spec fn spec_base_offset(major: u64) -> int {
    if major >= MODERN_VERSION_THRESHOLD {
        BASE_OFFSET_MODERN as int
    } else {
        BASE_OFFSET_LEGACY as int
    }
}

/// The base address of the image, or the typed failure of reaching it: the
/// version outcome first, then `Truncated` when the image cannot hold the
/// selected base-address field, else the little-endian 64-bit word at the
/// selected offset.
pub open spec fn base_address_result(s: Seq<u8>) -> Result<u64, ResolveError> {
    match version_major_result(s) {
        Err(e) => Err(e),
        Ok(m) => {
            let off = spec_base_offset(m);
            if s.len() < off + BASE_FIELD_SIZE {
                Err(ResolveError::Truncated)
            } else {
                Ok(spec_u64_from_le_bytes(s.subrange(off, off + BASE_FIELD_SIZE)))
            }
        },
    }
}

/// Every field of a produced layout, pinned against the base address and the
/// image length: one region covering `[base, base + len)`, backed one to one
/// by the whole image, readable and executable but not writable, holding
/// both code and data, rendered as read-only code; the entry point at the
/// base; the one function symbol at the base.
pub open spec fn layout_wf(l: ImageLayout, base: u64, len: nat) -> bool {
    &&& l.base_address == base
    &&& l.region.start == base
    &&& l.region.length == len
    &&& l.region.backing_offset == 0
    &&& l.region.backing_length == len
    &&& l.region.readable
    &&& !l.region.writable
    &&& l.region.executable
    &&& l.region.contains_code
    &&& l.region.contains_data
    &&& l.region.semantics == Semantics::ReadOnlyCode
    &&& l.entry_point == base
    &&& l.symbol.kind == SymbolKind::Function
    &&& l.symbol.address == base
}

/// Everything `resolve` promises of its result on image bytes `s`.
pub open spec fn resolve_post(s: Seq<u8>, r: Result<ImageLayout, ResolveError>) -> bool {
    match r {
        Ok(l) => {
            &&& base_address_result(s) == Ok::<u64, ResolveError>(l.base_address)
            &&& layout_wf(l, l.base_address, s.len())
        },
        Err(e) => base_address_result(s) == Err::<u64, ResolveError>(e),
    }
}

/// Version-conditioned base-address resolution: parses the major version,
/// selects the historical header offset for it, and reads the base address
/// as a little-endian 64-bit word. A too-short image is a typed failure,
/// never a silent zero.
pub fn base_address(image: &[u8]) -> (r: Result<u64, ResolveError>)
    ensures
        r == base_address_result(image@),
{
    let major = match version_major(image) {
        Ok(m) => m,
        Err(e) => {
            return Err(e);
        },
    };
    let off: usize = if major >= MODERN_VERSION_THRESHOLD {
        BASE_OFFSET_MODERN
    } else {
        BASE_OFFSET_LEGACY
    };
    if image.len() < off + BASE_FIELD_SIZE {
        return Err(ResolveError::Truncated);
    }
    let field = slice_subrange(image, off, off + BASE_FIELD_SIZE);
    Ok(u64_from_le_bytes(field))
}

/// Layout resolution: derives the base address and bundles the single
/// memory region, entry point and `_start` symbol that describe the image.
/// No partial layout is ever returned on failure.
pub fn resolve(image: &[u8]) -> (r: Result<ImageLayout, ResolveError>)
    ensures
        resolve_post(image@, r),
{
    let base = match base_address(image) {
        Ok(b) => b,
        Err(e) => {
            return Err(e);
        },
    };
    let length = image.len() as u64;
    let region = MemoryRegion {
        start: base,
        length,
        backing_offset: 0,
        backing_length: length,
        readable: true,
        writable: false,
        executable: true,
        contains_code: true,
        contains_data: true,
        semantics: Semantics::ReadOnlyCode,
    };
    Ok(
        ImageLayout {
            base_address: base,
            region,
            entry_point: base,
            symbol: Symbol { kind: SymbolKind::Function, address: base },
        },
    )
}

/// Everything `detect_and_resolve` promises: an unrecognized image is
/// refused before resolution is attempted; a recognized one resolves.
pub open spec fn detect_and_resolve_post(s: Seq<u8>, r: Result<ImageLayout, ResolveError>) -> bool {
    if spec_is_supported(s) {
        resolve_post(s, r)
    } else {
        r == Err::<ImageLayout, ResolveError>(ResolveError::UnsupportedFormat)
    }
}

/// The control flow of the host, in one call: the format detector gates the
/// layout resolver.
pub fn detect_and_resolve(image: &[u8]) -> (r: Result<ImageLayout, ResolveError>)
    ensures
        detect_and_resolve_post(image@, r),
{
    if !is_supported(image) {
        return Err(ResolveError::UnsupportedFormat);
    }
    resolve(image)
}

/// Base-address selection, modern side: an image long enough for the modern
/// field whose version text parses to a major at or above the threshold has
/// its base address read at the modern offset — round trip of whatever
/// little-endian word stands there.
pub proof fn lemma_modern_base_offset(s: Seq<u8>)
    requires
        s.len() >= BASE_OFFSET_MODERN + BASE_FIELD_SIZE,
        valid_utf8(version_window(s)),
        parses_as_major(version_window(s)),
        major_of(version_window(s)) >= MODERN_VERSION_THRESHOLD,
    ensures
        base_address_result(s) == Ok::<u64, ResolveError>(
            spec_u64_from_le_bytes(
                s.subrange(BASE_OFFSET_MODERN as int, BASE_OFFSET_MODERN + BASE_FIELD_SIZE),
            ),
        ),
{
    lemma_dec_value_nonneg(digits_part(first_component(version_window(s))));
}

/// Base-address selection, legacy side: a major below the threshold has the
/// base address read at the legacy offset, never the modern one.
pub proof fn lemma_legacy_base_offset(s: Seq<u8>)
    requires
        s.len() >= BASE_OFFSET_LEGACY + BASE_FIELD_SIZE,
        valid_utf8(version_window(s)),
        parses_as_major(version_window(s)),
        major_of(version_window(s)) < MODERN_VERSION_THRESHOLD,
    ensures
        base_address_result(s) == Ok::<u64, ResolveError>(
            spec_u64_from_le_bytes(
                s.subrange(BASE_OFFSET_LEGACY as int, BASE_OFFSET_LEGACY + BASE_FIELD_SIZE),
            ),
        ),
{
    lemma_dec_value_nonneg(digits_part(first_component(version_window(s))));
}

/// A resolved layout covers exactly the image: one region from the base
/// address over the full image length, backed by the whole image, with the
/// entry point and the one function symbol at the base address.
pub proof fn lemma_layout_covers_image(s: Seq<u8>, l: ImageLayout)
    requires
        resolve_post(s, Ok(l)),
    ensures
        l.region.start == l.base_address,
        l.region.end() == l.base_address + s.len(),
        l.region.backing_offset == 0,
        l.region.backing_length == s.len(),
        l.entry_point == l.base_address,
        l.symbol.kind == SymbolKind::Function,
        l.symbol.address == l.base_address,
{
}

/// Resolution is deterministic: any two results that `resolve`'s contract
/// admits on the same image bytes are identical, errors included.
pub proof fn lemma_resolve_deterministic(
    s: Seq<u8>,
    r1: Result<ImageLayout, ResolveError>,
    r2: Result<ImageLayout, ResolveError>,
)
    requires
        resolve_post(s, r1),
        resolve_post(s, r2),
    ensures
        r1 == r2,
{
    match (r1, r2) {
        (Ok(l1), Ok(l2)) => {
            assert(l1.base_address == l2.base_address);
            assert(l1.region == l2.region);
            assert(l1.symbol == l2.symbol);
            assert(l1 == l2);
        },
        _ => {},
    }
}

} // verus!
