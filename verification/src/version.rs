use vstd::prelude::*;

verus! {

/// The two layouts of a key-value secrets engine.
#[derive(Clone, Copy, Debug, PartialEq, Eq, Structural)]
pub enum KvVersion {
    V1,
    V2,
}

/// The layout that a command-line value names: exactly `"1"` or `"2"`.
pub open spec fn kv_version_of(kvv: Seq<char>) -> Option<KvVersion> {
    if kvv == seq!['2'] {
        Some(KvVersion::V2)
    } else if kvv == seq!['1'] {
        Some(KvVersion::V1)
    } else {
        None
    }
}

/// Reads the mount layout from its command-line spelling.
pub fn parse_kv_version(kvv: &str) -> (res: Option<KvVersion>)
    ensures
        res == kv_version_of(kvv@),
{
    if kvv.unicode_len() != 1 {
        return None;
    }
    let c = kvv.get_char(0);
    if c == '2' {
        assert(kvv@ =~= seq!['2']);
        Some(KvVersion::V2)
    } else if c == '1' {
        assert(kvv@ =~= seq!['1']);
        Some(KvVersion::V1)
    } else {
        assert(kvv@ != seq!['2']);
        assert(kvv@ != seq!['1']);
        None
    }
}

} // verus!
