use vstd::prelude::*;

verus! {

/// Offset of the ASCII format tag in the image header.
pub const TAG_OFFSET: usize = 0x200;

/// How many distinct format tags are recognized.
pub const TAG_COUNT: usize = 5;

/// Length of the shortest recognized tag (`iBEC` and `iBSS`).
pub const SHORTEST_TAG_LEN: usize = 4;

/// The recognized format tags, as ASCII byte sequences, in probe order:
/// `SecureROM`, `AVPBooter`, `iBoot`, `iBEC`, `iBSS`.
pub open spec fn spec_tag(k: int) -> Seq<u8> {
    if k == 0 {
        seq!['S' as u8, 'e' as u8, 'c' as u8, 'u' as u8, 'r' as u8, 'e' as u8, 'R' as u8, 'O' as u8, 'M' as u8]
    } else if k == 1 {
        seq!['A' as u8, 'V' as u8, 'P' as u8, 'B' as u8, 'o' as u8, 'o' as u8, 't' as u8, 'e' as u8, 'r' as u8]
    } else if k == 2 {
        seq!['i' as u8, 'B' as u8, 'o' as u8, 'o' as u8, 't' as u8]
    } else if k == 3 {
        seq!['i' as u8, 'B' as u8, 'E' as u8, 'C' as u8]
    } else {
        seq!['i' as u8, 'B' as u8, 'S' as u8, 'S' as u8]
    }
}

/// The bytes of tag `k`, as a vector usable by executable code.
fn tag_bytes(k: usize) -> (t: Vec<u8>)
    requires
        k < TAG_COUNT,
    ensures
        t@ == spec_tag(k as int),
{
    let mut t: Vec<u8> = Vec::new();
    if k == 0 {
        t.push('S' as u8);
        t.push('e' as u8);
        t.push('c' as u8);
        t.push('u' as u8);
        t.push('r' as u8);
        t.push('e' as u8);
        t.push('R' as u8);
        t.push('O' as u8);
        t.push('M' as u8);
    } else if k == 1 {
        t.push('A' as u8);
        t.push('V' as u8);
        t.push('P' as u8);
        t.push('B' as u8);
        t.push('o' as u8);
        t.push('o' as u8);
        t.push('t' as u8);
        t.push('e' as u8);
        t.push('r' as u8);
    } else if k == 2 {
        t.push('i' as u8);
        t.push('B' as u8);
        t.push('o' as u8);
        t.push('o' as u8);
        t.push('t' as u8);
    } else if k == 3 {
        t.push('i' as u8);
        t.push('B' as u8);
        t.push('E' as u8);
        t.push('C' as u8);
    } else {
        t.push('i' as u8);
        t.push('B' as u8);
        t.push('S' as u8);
        t.push('S' as u8);
    }
    proof {
        assert(t@ =~= spec_tag(k as int));
    }
    t
}

/// The image carries `tag` when it is long enough to hold the whole tag
/// window and the bytes at the tag offset equal the tag, byte for byte.
pub open spec fn matches_tag_at(s: Seq<u8>, tag: Seq<u8>) -> bool {
    &&& s.len() >= TAG_OFFSET + tag.len()
    &&& s.subrange(TAG_OFFSET as int, TAG_OFFSET + tag.len()) == tag
}

/// The image carries one of the recognized format tags at the tag offset.
pub open spec fn spec_is_supported(s: Seq<u8>) -> bool {
    exists|k: int| 0 <= k < TAG_COUNT && matches_tag_at(s, spec_tag(k))
}

/// Compares the bytes at the tag offset against one tag. A short image is
/// reported as "no match", never read out of bounds.
fn matches_tag(image: &[u8], tag: &Vec<u8>) -> (r: bool)
    ensures
        r == matches_tag_at(image@, tag@),
{
    if image.len() < TAG_OFFSET || image.len() - TAG_OFFSET < tag.len() {
        return false;
    }
    let n = tag.len();
    let mut i: usize = 0;
    while i < n
        invariant
            n == tag@.len(),
            image@.len() >= TAG_OFFSET + n,
            image@.len() <= usize::MAX,
            i <= n,
            forall|j: int| 0 <= j < i ==> image@[TAG_OFFSET + j] == tag@[j],
        decreases n - i,
    {
        if image[TAG_OFFSET + i] != tag[i] {
            proof {
                assert(image@.subrange(TAG_OFFSET as int, TAG_OFFSET + tag@.len())[i as int]
                    == image@[TAG_OFFSET + i]);
            }
            return false;
        }
        i += 1;
    }
    proof {
        assert(image@.subrange(TAG_OFFSET as int, TAG_OFFSET + tag@.len()) =~= tag@);
    }
    true
}

/// Signature-based format identification: true exactly when one of the
/// recognized ASCII tags stands at the tag offset. Tolerates arbitrary bytes
/// and arbitrary (also very short) lengths.
pub fn is_supported(image: &[u8]) -> (r: bool)
    ensures
        r == spec_is_supported(image@),
{
    let mut k: usize = 0;
    while k < TAG_COUNT
        invariant
            k <= TAG_COUNT,
            forall|j: int| 0 <= j < k ==> !matches_tag_at(image@, spec_tag(j)),
        decreases TAG_COUNT - k,
    {
        let tag = tag_bytes(k);
        if matches_tag(image, &tag) {
            proof {
                assert(matches_tag_at(image@, spec_tag(k as int)));
            }
            return true;
        }
        k += 1;
    }
    false
}

/// A buffer shorter than the tag offset plus the shortest recognized tag
/// cannot carry any tag, so it is never identified as supported.
pub proof fn lemma_short_image_unsupported(s: Seq<u8>)
    requires
        s.len() < TAG_OFFSET + SHORTEST_TAG_LEN,
    ensures
        !spec_is_supported(s),
{
    assert forall|k: int| 0 <= k < TAG_COUNT implies !matches_tag_at(s, spec_tag(k)) by {
        assert(spec_tag(k).len() >= SHORTEST_TAG_LEN);
    }
}

} // verus!
