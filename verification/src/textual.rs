//! Rendering jobs as text.
//!
//! The job list is shown as a bracketed block per job, with one line per
//! set field.  Everything is built from plain string appends, and each
//! function's contract pins the exact character sequence produced.

use vstd::prelude::*;
use vstd::string::StringExecFns;

use crate::job::{BackupModel, CompressFormat, Job, Level};
use crate::pathname::BackupPath;

verus! {

/// The decimal digit character for one value below ten.
pub open spec fn spec_digit(d: u32) -> char {
    if d == 0 {
        '0'
    } else if d == 1 {
        '1'
    } else if d == 2 {
        '2'
    } else if d == 3 {
        '3'
    } else if d == 4 {
        '4'
    } else if d == 5 {
        '5'
    } else if d == 6 {
        '6'
    } else if d == 7 {
        '7'
    } else if d == 8 {
        '8'
    } else {
        '9'
    }
}

/// The decimal rendering of a number, most significant digit first.
pub open spec fn spec_u32_text(n: u32) -> Seq<char>
    decreases n,
{
    if n < 10 {
        seq![spec_digit(n)]
    } else {
        spec_u32_text(n / 10).push(spec_digit(n % 10))
    }
}

/// One decimal digit as text.
fn digit_text(d: u32) -> (r: &'static str)
    requires
        d < 10,
    ensures
        r@ == seq![spec_digit(d)],
{
    proof {
        reveal_strlit("0");
        reveal_strlit("1");
        reveal_strlit("2");
        reveal_strlit("3");
        reveal_strlit("4");
        reveal_strlit("5");
        reveal_strlit("6");
        reveal_strlit("7");
        reveal_strlit("8");
        reveal_strlit("9");
    }
    match d {
        0 => "0",
        1 => "1",
        2 => "2",
        3 => "3",
        4 => "4",
        5 => "5",
        6 => "6",
        7 => "7",
        8 => "8",
        _ => "9",
    }
}

/// Renders a number in decimal.
pub fn u32_text(n: u32) -> (r: String)
    ensures
        r@ == spec_u32_text(n),
    decreases n,
{
    if n < 10 {
        digit_text(n).to_owned()
    } else {
        proof {
            assert(n / 10 < n) by (nonlinear_arith)
                requires
                    n >= 10,
            ;
        }
        let mut s = u32_text(n / 10);
        s.append(digit_text(n % 10));
        s
    }
}

/// The components of a path joined with separators.
pub open spec fn spec_join(parts: Seq<Seq<char>>) -> Seq<char>
    decreases parts.len(),
{
    if parts.len() == 0 {
        Seq::empty()
    } else if parts.len() == 1 {
        parts[0]
    } else {
        spec_join(parts.drop_last()) + seq!['/'] + parts.last()
    }
}

/// The textual form of a path: its components joined with `/`, behind a
/// leading `/` when the path is absolute.
pub open spec fn spec_path_text(p: (bool, Seq<Seq<char>>)) -> Seq<char> {
    if p.0 {
        seq!['/'] + spec_join(p.1)
    } else {
        spec_join(p.1)
    }
}

/// Renders a path.
pub fn path_text(p: &BackupPath) -> (r: String)
    ensures
        r@ == spec_path_text(p@),
{
    let ghost parts = p@.1;
    let mut s = String::new();
    if p.absolute {
        s.append("/");
        proof {
            reveal_strlit("/");
            assert(s@ =~= seq!['/']);
        }
    }
    let ghost head = s@;
    let mut i: usize = 0;
    assert(head + spec_join(parts.take(0)) =~= head);
    while i < p.parts.len()
        invariant
            i <= p.parts.len(),
            parts == p@.1,
            s@ == head + spec_join(parts.take(i as int)),
        decreases p.parts.len() - i,
    {
        proof {
            assert(parts.take(i + 1).drop_last() =~= parts.take(i as int));
            assert(parts.take(i + 1).last() == parts[i as int]);
            assert(parts[i as int] == p.parts@[i as int]@);
        }
        if i > 0 {
            s.append("/");
            proof {
                reveal_strlit("/");
            }
        }
        s.append(p.parts[i].as_str());
        proof {
            if i == 0 {
                assert(spec_join(parts.take(1)) =~= parts[0]);
                assert(s@ =~= head + spec_join(parts.take(1)));
            } else {
                assert(s@ =~= head + (spec_join(parts.take(i as int)) + seq!['/']
                    + parts[i as int]));
            }
        }
        i = i + 1;
    }
    assert(parts.take(p.parts.len() as int) =~= parts);
    s
}

/// The display name of an archive format.
pub open spec fn spec_format_name(f: CompressFormat) -> Seq<char> {
    match f {
        CompressFormat::Gzip => "Gzip"@,
        CompressFormat::Zip => "Zip"@,
        CompressFormat::Sevenz => "Sevenz"@,
        CompressFormat::Zstd => "Zstd"@,
        CompressFormat::Bzip2 => "Bzip2"@,
        CompressFormat::Xz => "Xz"@,
        CompressFormat::Lz4 => "Lz4"@,
        CompressFormat::Tar => "Tar"@,
    }
}

/// The display name of an archive format.
pub fn format_name(f: &CompressFormat) -> (r: &'static str)
    ensures
        r@ == spec_format_name(*f),
{
    match f {
        CompressFormat::Gzip => "Gzip",
        CompressFormat::Zip => "Zip",
        CompressFormat::Sevenz => "Sevenz",
        CompressFormat::Zstd => "Zstd",
        CompressFormat::Bzip2 => "Bzip2",
        CompressFormat::Xz => "Xz",
        CompressFormat::Lz4 => "Lz4",
        CompressFormat::Tar => "Tar",
    }
}

/// The display name of a compression level.
pub open spec fn spec_level_name(l: Level) -> Seq<char> {
    match l {
        Level::Fastest => "Fastest"@,
        Level::Faster => "Faster"@,
        Level::Default => "Default"@,
        Level::Better => "Better"@,
        Level::Best => "Best"@,
    }
}

/// The display name of a compression level.
pub fn level_name(l: &Level) -> (r: &'static str)
    ensures
        r@ == spec_level_name(*l),
{
    match l {
        Level::Fastest => "Fastest",
        Level::Faster => "Faster",
        Level::Default => "Default",
        Level::Better => "Better",
        Level::Best => "Best",
    }
}

/// The display name of a backup model.
pub open spec fn spec_model_name(m: BackupModel) -> Seq<char> {
    match m {
        BackupModel::Full => "Full"@,
        BackupModel::Mirror => "Mirror"@,
    }
}

/// The display name of a backup model.
pub fn model_name(m: &BackupModel) -> (r: &'static str)
    ensures
        r@ == spec_model_name(*m),
{
    match m {
        BackupModel::Full => "Full",
        BackupModel::Mirror => "Mirror",
    }
}

/// An ignore list rendered as a bracketed, comma-separated list of
/// quoted patterns.
pub open spec fn spec_ignore_body(ps: Seq<(bool, Seq<Seq<char>>)>) -> Seq<char>
    decreases ps.len(),
{
    if ps.len() == 0 {
        Seq::empty()
    } else if ps.len() == 1 {
        seq!['"'] + spec_path_text(ps[0]) + seq!['"']
    } else {
        spec_ignore_body(ps.drop_last()) + ", "@ + seq!['"'] + spec_path_text(ps.last())
            + seq!['"']
    }
}

/// The full ignore list text, brackets included.
pub open spec fn spec_ignore_text(ps: Seq<(bool, Seq<Seq<char>>)>) -> Seq<char> {
    seq!['['] + spec_ignore_body(ps) + seq![']']
}

/// Renders an ignore list.
fn ignore_text(ps: &Vec<BackupPath>) -> (r: String)
    ensures
        r@ == spec_ignore_text(ps.deep_view()),
{
    let ghost psv = ps.deep_view();
    let mut s = String::new();
    s.append("[");
    proof {
        reveal_strlit("[");
        reveal_strlit("\"");
        reveal_strlit("]");
        assert(s@ =~= seq!['[']);
    }
    let mut i: usize = 0;
    assert(s@ =~= seq!['['] + spec_ignore_body(psv.take(0)));
    while i < ps.len()
        invariant
            i <= ps.len(),
            psv == ps.deep_view(),
            s@ == seq!['['] + spec_ignore_body(psv.take(i as int)),
        decreases ps.len() - i,
    {
        proof {
            reveal_strlit("\"");
            reveal_strlit(", ");
            assert(psv.take(i + 1).drop_last() =~= psv.take(i as int));
            assert(psv.take(i + 1).last() == psv[i as int]);
            assert(psv[i as int] == ps@[i as int]@);
        }
        if i > 0 {
            s.append(", ");
        }
        s.append("\"");
        let t = path_text(&ps[i]);
        s.append(t.as_str());
        s.append("\"");
        proof {
            if i == 0 {
                assert(spec_ignore_body(psv.take(1)) =~= seq!['"'] + spec_path_text(psv[0])
                    + seq!['"']);
                assert(s@ =~= seq!['['] + spec_ignore_body(psv.take(1)));
            } else {
                assert(spec_ignore_body(psv.take(i + 1)) =~= spec_ignore_body(psv.take(i as int))
                    + ", "@ + seq!['"'] + spec_path_text(psv[i as int]) + seq!['"']);
                assert(s@ =~= seq!['['] + spec_ignore_body(psv.take(i + 1)));
            }
        }
        i = i + 1;
    }
    assert(psv.take(ps.len() as int) =~= psv);
    s.append("]");
    assert(s@ =~= spec_ignore_text(psv)) by {
        reveal_strlit("]");
    }
    s
}

/// One job's display block.
pub open spec fn spec_job_text(j: <Job as View>::V) -> Seq<char> {
    let head = "{\n    id: "@ + spec_u32_text(j.0) + ",\n    source: \""@ + spec_path_text(j.1)
        + "\",\n    target: \""@ + spec_path_text(j.2) + "\""@;
    let comp = match j.3 {
        Some(f) => ",\n    compression: \""@ + spec_format_name(f) + "\""@,
        None => Seq::empty(),
    };
    let level = match j.4 {
        Some(l) => ",\n    level: \""@ + spec_level_name(l) + "\""@,
        None => Seq::empty(),
    };
    let ignore = match j.5 {
        Some(ps) => ",\n    ignore: "@ + spec_ignore_text(ps),
        None => Seq::empty(),
    };
    let model = match j.6 {
        Some(m) => ",\n    model: \""@ + spec_model_name(m) + "\""@,
        None => Seq::empty(),
    };
    head + comp + level + ignore + model + "\n}"@
}

/// Renders one job's display block.
#[verifier::rlimit(100)]
fn job_text(job: &Job) -> (r: String)
    ensures
        r@ == spec_job_text(job@),
{
    let mut s = String::new();
    s.append("{\n    id: ");
    let idt = u32_text(job.id);
    s.append(idt.as_str());
    s.append(",\n    source: \"");
    let st = path_text(&job.source);
    s.append(st.as_str());
    s.append("\",\n    target: \"");
    let tt = path_text(&job.target);
    s.append(tt.as_str());
    s.append("\"");
    let ghost head = s@;
    assert(head =~= "{\n    id: "@ + spec_u32_text(job@.0) + ",\n    source: \""@
        + spec_path_text(job@.1) + "\",\n    target: \""@ + spec_path_text(job@.2) + "\""@);
    match &job.compression {
        Some(f) => {
            s.append(",\n    compression: \"");
            s.append(format_name(f));
            s.append("\"");
        },
        None => {},
    }
    let ghost with_comp = s@;
    assert(with_comp =~= head + (match job@.3 {
        Some(f) => ",\n    compression: \""@ + spec_format_name(f) + "\""@,
        None => Seq::<char>::empty(),
    }));
    match &job.level {
        Some(l) => {
            s.append(",\n    level: \"");
            s.append(level_name(l));
            s.append("\"");
        },
        None => {},
    }
    let ghost with_level = s@;
    assert(with_level =~= with_comp + (match job@.4 {
        Some(l) => ",\n    level: \""@ + spec_level_name(l) + "\""@,
        None => Seq::<char>::empty(),
    }));
    match &job.ignore {
        Some(ps) => {
            s.append(",\n    ignore: ");
            let it = ignore_text(ps);
            s.append(it.as_str());
        },
        None => {},
    }
    let ghost with_ignore = s@;
    assert(with_ignore =~= with_level + (match job@.5 {
        Some(ps) => ",\n    ignore: "@ + spec_ignore_text(ps),
        None => Seq::<char>::empty(),
    }));
    match &job.model {
        Some(m) => {
            s.append(",\n    model: \"");
            s.append(model_name(m));
            s.append("\"");
        },
        None => {},
    }
    let ghost with_model = s@;
    assert(with_model =~= with_ignore + (match job@.6 {
        Some(m) => ",\n    model: \""@ + spec_model_name(m) + "\""@,
        None => Seq::<char>::empty(),
    }));
    s.append("\n}");
    assert(s@ =~= spec_job_text(job@));
    s
}

/// The display blocks of all listed jobs, one after another.
pub open spec fn spec_jobs_body(jobs: Seq<<Job as View>::V>) -> Seq<char>
    decreases jobs.len(),
{
    if jobs.len() == 0 {
        Seq::empty()
    } else {
        spec_jobs_body(jobs.drop_last()) + spec_job_text(jobs.last())
    }
}

/// The whole job list display: empty for no jobs, otherwise the blocks
/// between one pair of square brackets.
pub open spec fn spec_jobs_text(jobs: Seq<<Job as View>::V>) -> Seq<char> {
    if jobs.len() == 0 {
        Seq::empty()
    } else {
        seq!['['] + spec_jobs_body(jobs) + seq![']']
    }
}

/// Renders the job list for display.
pub fn display_jobs(jobs: &Vec<Job>) -> (r: String)
    ensures
        r@ == spec_jobs_text(jobs.deep_view()),
{
    let ghost jv = jobs.deep_view();
    if jobs.len() == 0 {
        let r = String::new();
        assert(r@ =~= spec_jobs_text(jv));
        return r;
    }
    let mut s = String::new();
    s.append("[");
    proof {
        reveal_strlit("[");
        assert(s@ =~= seq!['[']);
    }
    let mut i: usize = 0;
    assert(s@ =~= seq!['['] + spec_jobs_body(jv.take(0)));
    while i < jobs.len()
        invariant
            i <= jobs.len(),
            jv == jobs.deep_view(),
            s@ == seq!['['] + spec_jobs_body(jv.take(i as int)),
        decreases jobs.len() - i,
    {
        proof {
            assert(jv.take(i + 1).drop_last() =~= jv.take(i as int));
            assert(jv.take(i + 1).last() == jv[i as int]);
            assert(jv[i as int] == jobs@[i as int]@);
        }
        let jt = job_text(&jobs[i]);
        s.append(jt.as_str());
        assert(s@ =~= seq!['['] + spec_jobs_body(jv.take(i + 1)));
        i = i + 1;
    }
    assert(jv.take(jobs.len() as int) =~= jv);
    s.append("]");
    assert(s@ =~= spec_jobs_text(jv)) by {
        reveal_strlit("]");
    }
    s
}

/// The package name.
pub fn pkg_name() -> (r: String)
    ensures
        r@ == "hbackup"@,
{
    "hbackup".to_owned()
}

/// The configuration file's name.
pub fn config_name() -> (r: String)
    ensures
        r@ == "config.toml"@,
{
    "config.toml".to_owned()
}

/// The backup copy of the configuration file's name.
pub fn config_backup_name() -> (r: String)
    ensures
        r@ == "config_backup.toml"@,
{
    "config_backup.toml".to_owned()
}

} // verus!
