//! Archive job decisions.
//!
//! An archive job hands the whole source to an encoder.  What the engine
//! decides — and what is verified here — is the request validation, the
//! artifact's file name, the numeric compression level each named level
//! stands for, and which walked paths the archive takes in.  The
//! encoders themselves are outside collaborators: they receive these
//! plain values and produce the artifact.

use vstd::prelude::*;
use vstd::string::StringExecFns;

use crate::job::{CompressFormat, Level};
use crate::pathname::BackupPath;
use crate::planner::{ignored, spec_ignored, PlanError};
use crate::snapshot::NodeKind;

verus! {

/// The artifact extension: directories are first bundled into a tar for
/// the stream compressors, while zip, 7z and bare tar hold trees
/// themselves.
pub open spec fn spec_archive_ext(f: CompressFormat, source_is_dir: bool) -> Seq<char> {
    match f {
        CompressFormat::Gzip => if source_is_dir {
            "tar.gz"@
        } else {
            "gz"@
        },
        CompressFormat::Zip => "zip"@,
        CompressFormat::Sevenz => "7z"@,
        CompressFormat::Zstd => if source_is_dir {
            "tar.zst"@
        } else {
            "zst"@
        },
        CompressFormat::Bzip2 => if source_is_dir {
            "tar.bz2"@
        } else {
            "bz2"@
        },
        CompressFormat::Xz => if source_is_dir {
            "tar.xz"@
        } else {
            "xz"@
        },
        CompressFormat::Lz4 => if source_is_dir {
            "tar.lz4"@
        } else {
            "lz4"@
        },
        CompressFormat::Tar => "tar"@,
    }
}

/// The artifact extension for one format.
pub fn archive_ext(f: &CompressFormat, source_is_dir: bool) -> (r: &'static str)
    ensures
        r@ == spec_archive_ext(*f, source_is_dir),
{
    match f {
        CompressFormat::Gzip => if source_is_dir {
            "tar.gz"
        } else {
            "gz"
        },
        CompressFormat::Zip => "zip",
        CompressFormat::Sevenz => "7z",
        CompressFormat::Zstd => if source_is_dir {
            "tar.zst"
        } else {
            "zst"
        },
        CompressFormat::Bzip2 => if source_is_dir {
            "tar.bz2"
        } else {
            "bz2"
        },
        CompressFormat::Xz => if source_is_dir {
            "tar.xz"
        } else {
            "xz"
        },
        CompressFormat::Lz4 => if source_is_dir {
            "tar.lz4"
        } else {
            "lz4"
        },
        CompressFormat::Tar => "tar",
    }
}

/// The artifact's file name: the source's own name, a dot, and the
/// format's extension.
pub open spec fn spec_archive_name(base: Seq<char>, f: CompressFormat, source_is_dir: bool) -> Seq<
    char,
> {
    base + seq!['.'] + spec_archive_ext(f, source_is_dir)
}

/// The artifact file name an archive job produces inside the target
/// directory.
pub fn archive_name(base: &String, f: &CompressFormat, source_is_dir: bool) -> (r: String)
    ensures
        r@ == spec_archive_name(base@, *f, source_is_dir),
{
    let mut s = base.clone();
    s.append(".");
    proof {
        reveal_strlit(".");
    }
    s.append(archive_ext(f, source_is_dir));
    assert(s@ =~= spec_archive_name(base@, *f, source_is_dir));
    s
}

/// The numeric level each named level stands for, per format: the stream
/// compressors take 1–9 scales, zstd reaches 22, lz4 reaches 16, and a
/// bare tar compresses nothing.
pub open spec fn spec_numeric_level(f: CompressFormat, l: Level) -> u32 {
    match f {
        CompressFormat::Zstd => match l {
            Level::Fastest => 1u32,
            Level::Faster => 2u32,
            Level::Default => 3u32,
            Level::Better => 19u32,
            Level::Best => 22u32,
        },
        CompressFormat::Lz4 => match l {
            Level::Fastest => 1u32,
            Level::Faster => 3u32,
            Level::Default => 6u32,
            Level::Better => 14u32,
            Level::Best => 16u32,
        },
        CompressFormat::Tar => 0u32,
        _ => match l {
            Level::Fastest => 1u32,
            Level::Faster => 3u32,
            Level::Default => 6u32,
            Level::Better => 8u32,
            Level::Best => 9u32,
        },
    }
}

/// The numeric level handed to the encoder for one format and named
/// level.
pub fn numeric_level(f: &CompressFormat, l: &Level) -> (r: u32)
    ensures
        r == spec_numeric_level(*f, *l),
{
    match f {
        CompressFormat::Zstd => match l {
            Level::Fastest => 1,
            Level::Faster => 2,
            Level::Default => 3,
            Level::Better => 19,
            Level::Best => 22,
        },
        CompressFormat::Lz4 => match l {
            Level::Fastest => 1,
            Level::Faster => 3,
            Level::Default => 6,
            Level::Better => 14,
            Level::Best => 16,
        },
        CompressFormat::Tar => 0,
        _ => match l {
            Level::Fastest => 1,
            Level::Faster => 3,
            Level::Default => 6,
            Level::Better => 8,
            Level::Best => 9,
        },
    }
}

/// The fatal error an archive request stops on, if any.
pub open spec fn spec_archive_request_err(
    source_kind: NodeKind,
    target_kind: NodeKind,
) -> Option<PlanError> {
    if source_kind == NodeKind::Missing {
        Some(PlanError::SourceMissing)
    } else if target_kind == NodeKind::File {
        Some(PlanError::TargetNotDirectory)
    } else {
        None
    }
}

/// Validates an archive request and names its artifact.
///
/// The source must exist and the target must not be a regular file; the
/// caller then creates the target directory and encodes the source into
/// the returned artifact name inside it.
pub fn plan_archive(
    source: &BackupPath,
    format: &CompressFormat,
    source_kind: NodeKind,
    target_kind: NodeKind,
) -> (r: Result<String, PlanError>)
    ensures
        match r {
            Ok(name) => spec_archive_request_err(source_kind, target_kind) is None && source@.1.len()
                > 0 && name@ == spec_archive_name(
                source@.1.last(),
                *format,
                source_kind == NodeKind::Dir,
            ),
            Err(e) => (if spec_archive_request_err(source_kind, target_kind) is Some {
                spec_archive_request_err(source_kind, target_kind) == Some(e)
            } else {
                e == PlanError::InvalidFileName && source@.1.len() == 0
            }),
        },
{
    match source_kind {
        NodeKind::Missing => {
            return Err(PlanError::SourceMissing);
        },
        _ => {},
    }
    if matches!(target_kind, NodeKind::File) {
        return Err(PlanError::TargetNotDirectory);
    }
    let base = match source.base_name() {
        Some(b) => b,
        None => {
            return Err(PlanError::InvalidFileName);
        },
    };
    Ok(archive_name(base, format, matches!(source_kind, NodeKind::Dir)))
}

/// Does the archive take this walked path in?  Paths equal to or nested
/// under an ignore pattern are left out; everything else goes in.
pub fn include_in_archive(rel: &Vec<String>, ignore: &Vec<BackupPath>) -> (r: bool)
    ensures
        r == !spec_ignored(rel.deep_view(), ignore.deep_view()),
{
    !ignored(rel, ignore)
}

} // verus!
