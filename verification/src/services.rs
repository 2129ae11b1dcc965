//! Service-layer decisions: the daemon binary search paths, platform
//! triple selection, and classification of the daemon's own output.
//!
//! Process spawning, filesystem probes and HTTP polling live in the host;
//! what the host decides with is computed and verified here.

use vstd::prelude::*;
use vstd::string::StringExecFns;
use crate::mining::MiningState;

verus! {

/// Errors from managing the peer-to-peer daemon.
#[derive(Debug)]
pub enum IpfsError {
    HomeDirNotFound,
    Other(String),
}

/// The long-lived service handles owned by the application.
pub struct CybServices {
    pub mining: MiningState,
}

impl CybServices {
    /// Fresh services with an idle mining state.
    pub fn new() -> (s: CybServices)
        ensures
            !s.mining.is_mining_spec(),
            s.mining.hash_count_spec() == 0,
            s.mining.proofs_spec() == Seq::<crate::mining::FoundProof>::empty(),
    {
        CybServices { mining: MiningState::new() }
    }
}

/// Operating systems the daemon ships binaries for.
#[derive(Clone, Copy, Debug, PartialEq, Eq, Structural)]
pub enum TargetOs {
    MacOs,
    Linux,
    Windows,
    OtherOs,
}

/// Processor architectures the daemon ships binaries for.
#[derive(Clone, Copy, Debug, PartialEq, Eq, Structural)]
pub enum TargetArch {
    Aarch64,
    X86_64,
}

/// The platform triple suffix used in shipped daemon binary names.
pub open spec fn spec_target_triple(os: TargetOs, arch: TargetArch) -> Seq<char> {
    match os {
        TargetOs::MacOs => if arch == TargetArch::Aarch64 {
            "aarch64-apple-darwin"@
        } else {
            "x86_64-apple-darwin"@
        },
        TargetOs::Linux => if arch == TargetArch::Aarch64 {
            "aarch64-unknown-linux-gnu"@
        } else {
            "x86_64-unknown-linux-gnu"@
        },
        TargetOs::Windows => "x86_64-pc-windows-msvc"@,
        TargetOs::OtherOs => "unknown"@,
    }
}

/// The platform triple used in shipped daemon binary names.
pub fn get_target_triple(os: TargetOs, arch: TargetArch) -> (r: &'static str)
    ensures
        r@ == spec_target_triple(os, arch),
{
    match os {
        TargetOs::MacOs => {
            if matches!(arch, TargetArch::Aarch64) {
                "aarch64-apple-darwin"
            } else {
                "x86_64-apple-darwin"
            }
        },
        TargetOs::Linux => {
            if matches!(arch, TargetArch::Aarch64) {
                "aarch64-unknown-linux-gnu"
            } else {
                "x86_64-unknown-linux-gnu"
            }
        },
        TargetOs::Windows => "x86_64-pc-windows-msvc",
        TargetOs::OtherOs => "unknown",
    }
}

/// The candidate daemon binary paths, in probe order: the plain name beside
/// the executable, the triple-suffixed name beside it, then the two
/// development-tree locations.
pub open spec fn spec_binary_candidates(exe_dir: Seq<char>, triple: Seq<char>) -> Seq<Seq<char>> {
    seq![
        exe_dir + "/ipfs"@,
        exe_dir + "/ipfs-"@ + triple,
        exe_dir + "/../../bin/ipfs-"@ + triple,
        exe_dir + "/../../../bin/ipfs-"@ + triple,
    ]
}

/// Build the candidate daemon binary paths, in probe order.  The host
/// checks each for existence.
pub fn ipfs_binary_candidates(exe_dir: &str, triple: &str) -> (r: Vec<String>)
    ensures
        r@.len() == 4,
        forall|i: int|
            0 <= i < 4 ==> (#[trigger] r@[i])@ == spec_binary_candidates(exe_dir@, triple@)[i],
{
    let mut first = String::from_str(exe_dir);
    first.append("/ipfs");
    let mut second = String::from_str(exe_dir);
    second.append("/ipfs-");
    second.append(triple);
    let mut third = String::from_str(exe_dir);
    third.append("/../../bin/ipfs-");
    third.append(triple);
    let mut fourth = String::from_str(exe_dir);
    fourth.append("/../../../bin/ipfs-");
    fourth.append(triple);
    let mut out: Vec<String> = Vec::new();
    out.push(first);
    out.push(second);
    out.push(third);
    out.push(fourth);
    proof {
        assert("/../../bin/ipfs-"@ =~= "/../.."@ + "/bin/ipfs-"@) by {
            reveal_strlit("/../../bin/ipfs-");
            reveal_strlit("/../..");
            reveal_strlit("/bin/ipfs-");
        }
        assert(out@[2]@ =~= spec_binary_candidates(exe_dir@, triple@)[2]);
        assert(out@[0]@ =~= spec_binary_candidates(exe_dir@, triple@)[0]);
        assert(out@[1]@ =~= spec_binary_candidates(exe_dir@, triple@)[1]);
        assert(out@[3]@ =~= spec_binary_candidates(exe_dir@, triple@)[3]);
    }
    out
}

/// Whether `needle` occurs as a contiguous run inside `hay`.
pub open spec fn contains_seq(hay: Seq<u8>, needle: Seq<u8>) -> bool {
    exists|i: int|
        0 <= i && i + needle.len() <= hay.len() && #[trigger] hay.subrange(i, i + needle.len())
            == needle
}

/// The word a repeated-initialization complaint carries.
pub open spec fn already_marker() -> Seq<u8> {
    seq![97u8, 108u8, 114u8, 101u8, 97u8, 100u8, 121u8]
}

/// Whether `needle` occurs as a contiguous run inside `hay`.
fn contains_bytes(hay: &[u8], needle: &[u8]) -> (r: bool)
    ensures
        r == contains_seq(hay@, needle@),
{
    let hlen = hay.len();
    let nlen = needle.len();
    if nlen == 0 {
        proof {
            assert(hay@.subrange(0, 0 + needle@.len() as int) =~= needle@);
        }
        return true;
    }
    if nlen > hlen {
        proof {
            assert(!contains_seq(hay@, needle@));
        }
        return false;
    }
    let mut i: usize = 0;
    let last = hlen - nlen;
    while i <= last
        invariant
            hlen == hay@.len(),
            nlen == needle@.len(),
            1 <= nlen <= hlen,
            last == hlen - nlen,
            i <= last + 1,
            forall|k: int|
                0 <= k < i ==> #[trigger] hay@.subrange(k, k + needle@.len()) != needle@,
        decreases last + 1 - i,
    {
        let mut j: usize = 0;
        let mut all = true;
        while j < nlen
            invariant
                hlen == hay@.len(),
                nlen == needle@.len(),
                i + nlen <= hlen,
                j <= nlen,
                all == (forall|t: int| 0 <= t < j ==> hay@[i + t] == needle@[t]),
                !all ==> j == nlen,
            decreases nlen - j,
        {
            if hay[i + j] != needle[j] {
                proof {
                    assert(hay@[i as int + j as int] != needle@[j as int]);
                }
                all = false;
                j = nlen;
            } else {
                proof {
                    assert(forall|t: int| 0 <= t < j + 1 ==> hay@[i + t] == needle@[t]);
                }
                j = j + 1;
            }
        }
        if all {
            proof {
                assert(hay@.subrange(i as int, i as int + needle@.len()) =~= needle@);
            }
            return true;
        }
        proof {
            assert(hay@.subrange(i as int, i as int + needle@.len()) != needle@) by {
                let sub = hay@.subrange(i as int, i as int + needle@.len());
                if sub == needle@ {
                    assert forall|t: int| 0 <= t < needle@.len() implies hay@[i + t]
                        == needle@[t] by {
                        assert(sub[t] == hay@[i + t]);
                    }
                    assert(false);
                }
            }
        }
        i = i + 1;
    }
    proof {
        assert(!contains_seq(hay@, needle@));
    }
    false
}

/// Classify the daemon's initialization output: initialization counts as
/// done when the command succeeded or its diagnostics say the repository
/// already exists.
pub fn init_output_ok(success: bool, stderr: &[u8]) -> (r: bool)
    ensures
        r == (success || contains_seq(stderr@, already_marker())),
{
    if success {
        return true;
    }
    let needle: [u8; 7] = [97, 108, 114, 101, 97, 100, 121];
    let found = contains_bytes(stderr, &needle);
    proof {
        assert(needle@ =~= already_marker());
    }
    found
}

} // verus!
