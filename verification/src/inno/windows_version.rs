//! The range of Windows versions that an entry applies to.
use crate::bytes::{le_u16, ByteReader};
use crate::error::AnalysisError;
use crate::inno::version::InnoVersion;
use vstd::prelude::*;

verus! {

/// A version of Windows: major, minor and build.
#[derive(Debug, Clone, Copy, PartialEq, Eq, Structural)]
pub struct Version {
    pub major: u8,
    pub minor: u8,
    pub build: u16,
}

#[derive(Debug, Clone, Copy, PartialEq, Eq, Structural)]
pub struct ServicePack {
    pub major: u8,
    pub minor: u8,
}

/// The versions of Windows and of Windows NT, with the NT service pack.
#[derive(Debug, Clone, Copy, PartialEq, Eq, Structural)]
pub struct WindowsVersion {
    pub win_version: Version,
    pub nt_version: Version,
    pub nt_service_pack: ServicePack,
}

/// The versions of Windows that an entry applies to.
#[derive(Debug, Clone, Copy, PartialEq, Eq, Structural)]
pub struct WindowsVersionRange {
    pub begin: WindowsVersion,
    pub end: WindowsVersion,
}

/// Whether the producer stores builds and service packs: from 1.3.19 on.
pub open spec fn has_build(v: InnoVersion) -> bool {
    v.since(1, 3, 19)
}

/// The bytes of one stored version: build (if stored), minor, major.
pub open spec fn version_len(v: InnoVersion) -> int {
    if has_build(v) {
        4
    } else {
        2
    }
}

/// The bytes of one stored Windows version.
pub open spec fn windows_version_len(v: InnoVersion) -> int {
    if has_build(v) {
        10
    } else {
        4
    }
}

/// The version stored at the start of `b`.
pub open spec fn version_at(b: Seq<u8>, v: InnoVersion) -> Version {
    if has_build(v) {
        Version { build: le_u16(b), minor: b[2], major: b[3] }
    } else {
        Version { build: 0, minor: b[0], major: b[1] }
    }
}

/// The Windows version stored at the start of `b`.
pub open spec fn windows_version_at(b: Seq<u8>, v: InnoVersion) -> WindowsVersion {
    WindowsVersion {
        win_version: version_at(b, v),
        nt_version: version_at(b.skip(version_len(v)), v),
        nt_service_pack: if has_build(v) {
            ServicePack { minor: b[8], major: b[9] }
        } else {
            ServicePack { major: 0, minor: 0 }
        },
    }
}

/// The range stored at the start of `b`: begin, then end.
pub open spec fn windows_range_at(b: Seq<u8>, v: InnoVersion) -> WindowsVersionRange {
    WindowsVersionRange {
        begin: windows_version_at(b, v),
        end: windows_version_at(b.skip(windows_version_len(v)), v),
    }
}

/// What a structure of `n` bytes leaves of a reader: with enough data the
/// reader has moved behind it; with too little the read failed as truncated
/// somewhere inside it.
pub open spec fn read_through(before: &ByteReader, after: &ByteReader, n: int, ok: bool) -> bool {
    &&& after.wf()
    &&& after.data() == before.data()
    &&& ok == (before.remaining().len() >= n)
    &&& ok ==> after.position() == before.position() + n
    &&& !ok ==> before.position() <= after.position() <= before.data().len()
}

impl Version {
    pub fn from_reader(reader: &mut ByteReader, inno_version: &InnoVersion) -> (result: Result<
        Self,
        AnalysisError,
    >)
        requires
            old(reader).wf(),
        ensures
            read_through(old(reader), final(reader), version_len(*inno_version), result is Ok),
            result is Ok ==> result->Ok_0 == version_at(old(reader).remaining(), *inno_version),
            result is Err ==> result->Err_0 == AnalysisError::TruncatedData,
    {
        proof {
            reader.lemma_position_in_bounds();
        }
        let ghost start = old(reader).remaining();
        let mut build: u16 = 0;
        if inno_version.at_least(1, 3, 19) {
            build = match reader.read_u16() {
                Ok(n) => n,
                Err(e) => {
                    return Err(e);
                },
            };
        }
        proof {
            reader.lemma_position_in_bounds();
        }
        let ghost mid = reader.remaining();
        let minor = match reader.read_u8() {
            Ok(n) => n,
            Err(e) => {
                return Err(e);
            },
        };
        proof {
            reader.lemma_position_in_bounds();
        }
        let ghost last = reader.remaining();
        let major = match reader.read_u8() {
            Ok(n) => n,
            Err(e) => {
                return Err(e);
            },
        };
        proof {
            reader.lemma_position_in_bounds();
            assert(minor == mid[0] && major == last[0]);
            assert(last[0] == mid[1]);
            if has_build(*inno_version) {
                assert(mid[0] == start[2] && mid[1] == start[3]);
            }
        }
        Ok(Version { major, minor, build })
    }
}

impl WindowsVersion {
    pub fn from_reader(reader: &mut ByteReader, version: &InnoVersion) -> (result: Result<
        Self,
        AnalysisError,
    >)
        requires
            old(reader).wf(),
        ensures
            read_through(old(reader), final(reader), windows_version_len(*version), result is Ok),
            result is Ok ==> result->Ok_0 == windows_version_at(old(reader).remaining(), *version),
            result is Err ==> result->Err_0 == AnalysisError::TruncatedData,
    {
        proof {
            reader.lemma_position_in_bounds();
        }
        let ghost start = old(reader).remaining();
        let win_version = match Version::from_reader(reader, version) {
            Ok(v) => v,
            Err(e) => {
                return Err(e);
            },
        };
        proof {
            reader.lemma_position_in_bounds();
            assert(reader.remaining() =~= start.skip(version_len(*version)));
        }
        let nt_version = match Version::from_reader(reader, version) {
            Ok(v) => v,
            Err(e) => {
                return Err(e);
            },
        };
        proof {
            reader.lemma_position_in_bounds();
        }
        let ghost tail = reader.remaining();
        let mut nt_service_pack = ServicePack { major: 0, minor: 0 };
        if version.at_least(1, 3, 19) {
            let minor = match reader.read_u8() {
                Ok(n) => n,
                Err(e) => {
                    return Err(e);
                },
            };
            proof {
                reader.lemma_position_in_bounds();
            }
            let ghost last = reader.remaining();
            let major = match reader.read_u8() {
                Ok(n) => n,
                Err(e) => {
                    return Err(e);
                },
            };
            proof {
                reader.lemma_position_in_bounds();
                assert(tail[0] == start[8]);
                assert(last[0] == start[9]);
            }
            nt_service_pack = ServicePack { major, minor };
        }
        Ok(WindowsVersion { win_version, nt_version, nt_service_pack })
    }
}

impl WindowsVersionRange {
    pub fn from_reader(reader: &mut ByteReader, version: &InnoVersion) -> (result: Result<
        Self,
        AnalysisError,
    >)
        requires
            old(reader).wf(),
        ensures
            read_through(
                old(reader),
                final(reader),
                2 * windows_version_len(*version),
                result is Ok,
            ),
            result is Ok ==> result->Ok_0 == windows_range_at(old(reader).remaining(), *version),
            result is Err ==> result->Err_0 == AnalysisError::TruncatedData,
    {
        proof {
            reader.lemma_position_in_bounds();
        }
        let ghost start = old(reader).remaining();
        let begin = match WindowsVersion::from_reader(reader, version) {
            Ok(v) => v,
            Err(e) => {
                return Err(e);
            },
        };
        proof {
            reader.lemma_position_in_bounds();
            assert(reader.remaining() =~= start.skip(windows_version_len(*version)));
        }
        let end = match WindowsVersion::from_reader(reader, version) {
            Ok(v) => v,
            Err(e) => {
                return Err(e);
            },
        };
        Ok(WindowsVersionRange { begin, end })
    }
}

} // verus!
