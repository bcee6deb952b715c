//! Recognising a keyframe in an H.264 access unit in Annex B form: a start
//! code (`00 00 00 01` or `00 00 01`) followed by a NAL unit of type 5
//! (an IDR slice).
use vstd::prelude::*;

verus! {

/// Where the NAL unit starts when a start code stands at `i`: after the
/// four-byte code when there is one, else after the three-byte code.
pub open spec fn nal_start_at(d: Seq<u8>, i: int) -> Option<int> {
    if 0 <= i && i + 4 <= d.len() && d[i] == 0 && d[i + 1] == 0 && d[i + 2] == 0 && d[i + 3] == 1 {
        Some(i + 4)
    } else if 0 <= i && i + 3 <= d.len() && d[i] == 0 && d[i + 1] == 0 && d[i + 2] == 1 {
        Some(i + 3)
    } else {
        None
    }
}

/// Whether a start code at `i` opens an IDR NAL unit (type 5 in the low
/// five bits of its header byte).
pub open spec fn idr_at(d: Seq<u8>, i: int) -> bool {
    match nal_start_at(d, i) {
        Some(n) => n < d.len() && d[n] & 0x1f == 5,
        None => false,
    }
}

/// Whether some position `i` with four bytes from it on opens an IDR NAL
/// unit.
pub open spec fn keyframe(d: Seq<u8>) -> bool {
    exists|i: int| 0 <= i && i + 4 <= d.len() && #[trigger] idr_at(d, i)
}

/// Whether the access unit holds an IDR slice.
pub fn is_keyframe(data: &[u8]) -> (r: bool)
    ensures
        r == keyframe(data@),
{
    let len = data.len();
    let mut i: usize = 0;
    while len >= 4 && i <= len - 4
        invariant
            len == data@.len(),
            i <= len,
            forall|j: int| 0 <= j < i && j + 4 <= len ==> !idr_at(data@, j),
        decreases len - i,
    {
        let start: Option<usize> = if data[i] == 0 && data[i + 1] == 0 && data[i + 2] == 0 && data[i + 3] == 1 {
            Some(i + 4)
        } else if data[i] == 0 && data[i + 1] == 0 && data[i + 2] == 1 {
            Some(i + 3)
        } else {
            None
        };
        assert(start == match nal_start_at(data@, i as int) {
            Some(n) => Some(n as usize),
            None => None::<usize>,
        });
        if let Some(nal_start) = start {
            if nal_start < len && (data[nal_start] & 0x1f) == 5 {
                assert(idr_at(data@, i as int));
                return true;
            }
        }
        i = i + 1;
    }
    assert forall|j: int| 0 <= j && j + 4 <= data@.len() implies !#[trigger] idr_at(data@, j) by {
        assert(j < i || len < 4);
    }
    false
}

/// An access unit holding a keyframe still holds one when more bytes are
/// appended.
pub proof fn law_keyframe_survives_append(d: Seq<u8>, more: Seq<u8>)
    requires
        keyframe(d),
    ensures
        keyframe(d + more),
{
    let i = choose|i: int| 0 <= i && i + 4 <= d.len() && #[trigger] idr_at(d, i);
    let e = d + more;
    assert(e[i] == d[i] && e[i + 1] == d[i + 1] && e[i + 2] == d[i + 2] && e[i + 3] == d[i + 3]);
    let n = nal_start_at(d, i)->0;
    assert(e[n] == d[n]);
    assert(idr_at(e, i));
}

/// An access unit holding a keyframe still holds one when bytes are put
/// in front of it.
pub proof fn law_keyframe_survives_prefix(before: Seq<u8>, d: Seq<u8>)
    requires
        keyframe(d),
    ensures
        keyframe(before + d),
{
    let i = choose|i: int| 0 <= i && i + 4 <= d.len() && #[trigger] idr_at(d, i);
    let e = before + d;
    let k = before.len() + i;
    assert(e[k] == d[i] && e[k + 1] == d[i + 1] && e[k + 2] == d[i + 2] && e[k + 3] == d[i + 3]);
    let n = nal_start_at(d, i)->0;
    assert(e[before.len() + n] == d[n]);
    assert(idr_at(e, k));
}

/// Bytes without a zero byte hold no start code and so no keyframe.
pub proof fn law_no_zero_no_keyframe(d: Seq<u8>)
    requires
        forall|j: int| 0 <= j < d.len() ==> d[j] != 0,
    ensures
        !keyframe(d),
{
    assert forall|i: int| 0 <= i && i + 4 <= d.len() implies !#[trigger] idr_at(d, i) by {
        assert(d[i] != 0);
    }
}

} // verus!
