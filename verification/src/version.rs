use vstd::prelude::*;
use vstd::string::StringExecFns;
use crate::error::PsarcError;
use crate::reader::be_value;
use crate::text::dec_rep;

verus! {

/// The archive file version: two 16-bit big-endian fields right after the
/// magic tag.
#[derive(Debug, Clone, Copy, PartialEq, Eq, Structural)]
pub struct PSArchiveVersion {
    /// The major version number.
    pub major: u16,
    /// The minor version number.
    pub minor: u16,
}

/// The rendering of a version, `v<major>.<minor>` in decimal.
pub open spec fn version_display(v: PSArchiveVersion) -> Seq<char> {
    seq!['v'] + dec_rep(v.major as nat) + seq!['.'] + dec_rep(v.minor as nat)
}

impl PSArchiveVersion {
    /// Decodes a version from exactly 4 bytes; any other length is rejected,
    /// with nothing consumed.
    pub fn parse(bytes: &[u8]) -> (r: Result<Self, PsarcError>)
        ensures
            bytes@.len() == 4 ==> (r matches Ok(v)
                && v.major == be_value(bytes@.take(2))
                && v.minor == be_value(bytes@.skip(2))),
            bytes@.len() != 4 ==> (r matches Err(e) && e == PsarcError::InvalidLength),
    {
        if bytes.len() == 4 {
            let major: u16 = (bytes[0] as u16) * 256 + (bytes[1] as u16);
            let minor: u16 = (bytes[2] as u16) * 256 + (bytes[3] as u16);
            proof {
                lemma_pair_be(bytes@);
            }
            Ok(PSArchiveVersion { major, minor })
        } else {
            Err(PsarcError::InvalidLength)
        }
    }

    /// Renders the version as `v<major>.<minor>`.
    pub fn display_string(&self) -> (r: String)
        ensures
            r@ == version_display(*self),
    {
        let mut out = String::new();
        proof {
            reveal_strlit("v");
            reveal_strlit(".");
            assert("v"@ =~= seq!['v']);
            assert("."@ =~= seq!['.']);
        }
        out.append("v");
        crate::text::push_decimal(&mut out, self.major as u64);
        out.append(".");
        crate::text::push_decimal(&mut out, self.minor as u64);
        proof {
            assert(out@ =~= version_display(*self));
        }
        out
    }
}

/// Unfolds `be_value` over each half of a 4-byte slice.
proof fn lemma_pair_be(s: Seq<u8>)
    requires
        s.len() == 4,
    ensures
        be_value(s.take(2)) == s[0] * 0x100 + s[1],
        be_value(s.skip(2)) == s[2] * 0x100 + s[3],
{
    let a = s.take(2);
    let b = s.skip(2);
    assert(be_value(Seq::<u8>::empty()) == 0);
    assert(seq![s[0]].drop_last() =~= Seq::<u8>::empty());
    assert(be_value(seq![s[0]]) == s[0]);
    assert(a.drop_last() =~= seq![s[0]]);
    assert(a.last() == s[1]);
    assert(be_value(a) == s[0] * 256 + s[1]);
    assert(seq![s[2]].drop_last() =~= Seq::<u8>::empty());
    assert(be_value(seq![s[2]]) == s[2]);
    assert(b.drop_last() =~= seq![s[2]]);
    assert(b.last() == s[3]);
    assert(be_value(b) == s[2] * 256 + s[3]);
}

} // verus!
