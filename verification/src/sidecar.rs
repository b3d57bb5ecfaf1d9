//! Sidecar-path computation: the metadata sidecar of a video file sits at the
//! same path with the extension replaced by `nfo`.

use vstd::prelude::*;
use vstd::string::{StrSliceExecFns, StringExecFns};

verus! {

/// Name of the show-level metadata file looked up directly inside the
/// scanned directory.
pub const TVSHOW_NFO_NAME: &'static str = "tvshow.nfo";

/// Position `k` in `p` of the dot that starts the extension of the final
/// path component: a '.' that no other '.' or '/' follows, and that is not
/// the first character of the component.
pub open spec fn is_extension_dot(p: Seq<char>, k: int) -> bool {
    &&& 0 < k < p.len()
    &&& p[k] == '.'
    &&& p[k - 1] != '/'
    &&& forall|j: int| k < j < p.len() ==> p[j] != '.' && p[j] != '/'
}

/// How much of `p` the sidecar path keeps: everything before the extension
/// dot when the final component has an extension, the whole text otherwise.
pub open spec fn extension_cut(p: Seq<char>) -> int {
    if exists|k: int| is_extension_dot(p, k) {
        choose|k: int| is_extension_dot(p, k)
    } else {
        p.len() as int
    }
}

/// The sidecar path of `p`: the final component's extension replaced by
/// `nfo`, or `.nfo` appended when the component has no extension.
pub open spec fn sidecar_text(p: Seq<char>) -> Seq<char> {
    p.subrange(0, extension_cut(p)) + ".nfo"@
}

proof fn lemma_extension_dot_unique(p: Seq<char>, k1: int, k2: int)
    requires
        is_extension_dot(p, k1),
        is_extension_dot(p, k2),
    ensures
        k1 == k2,
{
    if k1 < k2 {
        assert(p[k2] != '.');
    }
    if k2 < k1 {
        assert(p[k1] != '.');
    }
}

/// The path where the metadata sidecar of the video file at `p` belongs:
/// `p` with its extension replaced by `nfo`.
pub fn sidecar_path_text(p: &str) -> (r: String)
    ensures
        r@ == sidecar_text(p@),
{
    let len = p.unicode_len();
    let mut j: usize = len;
    let mut cut: usize = len;
    loop
        invariant_except_break
            cut == len,
        invariant
            j <= len,
            len == p@.len(),
            forall|m: int| j <= m < len ==> p@[m] != '.' && p@[m] != '/',
        ensures
            cut <= len,
            cut as int == extension_cut(p@),
        decreases j,
    {
        if j == 0 {
            proof {
                assert forall|k: int| !is_extension_dot(p@, k) by {
                    if 0 < k < p@.len() {
                        assert(p@[k] != '.');
                    }
                }
            }
            break ;
        }
        let c = p.get_char(j - 1);
        if c == '/' {
            proof {
                assert forall|k: int| !is_extension_dot(p@, k) by {
                    if is_extension_dot(p@, k) {
                        if k > j - 1 {
                            assert(p@[k] != '.');
                        } else if k < j - 1 {
                            assert(p@[j - 1] != '/');
                        }
                    }
                }
            }
            break ;
        }
        if c == '.' {
            if j >= 2 && p.get_char(j - 2) != '/' {
                cut = j - 1;
                proof {
                    assert(is_extension_dot(p@, j - 1));
                    let k = choose|k: int| is_extension_dot(p@, k);
                    lemma_extension_dot_unique(p@, k, j - 1);
                }
            } else {
                proof {
                    assert forall|k: int| !is_extension_dot(p@, k) by {
                        if is_extension_dot(p@, k) {
                            if k > j - 1 {
                                assert(p@[k] != '.');
                            } else if k < j - 1 {
                                assert(p@[j - 1] != '.');
                            }
                        }
                    }
                }
            }
            break ;
        }
        j = j - 1;
    }
    let mut s = p.substring_char(0, cut).to_owned();
    s.append(".nfo");
    proof {
        assert(s@ =~= sidecar_text(p@));
    }
    s
}

} // verus!
