//! The report generator: creating a day's report from the template, and
//! filing dated reports into the archive tree.

use vstd::prelude::*;
use crate::date::{date_stamp, is_stampable, stamp_of};
use crate::digest::{md5_of_text, updated};
use crate::model::{listed, paths_of, run, steps_of, texts_of, Files, FsOp, FsStep};
use crate::naming::{
    archive_subdir, generate_partial_path_for_archive_dir, is_archivable_name, is_dated_name,
    is_dated_report_name, ArchiveError,
};
use crate::text::{file_name, file_name_of, join, join_path};
use vstd::string::StringExecFns;

verus! {

/// The text that a missing `Template.txt` is created with.
pub open spec fn template_text() -> Seq<char> {
    "<Today's task>\n-\n-\n\n<TODO>\n-\n-\n"@
}

/// `Template.txt` inside `dir`.
pub open spec fn template_path(dir: Seq<char>) -> Seq<char> {
    join(dir, "Template.txt"@)
}

/// `{date}.txt` inside `dir`.
pub open spec fn report_path(dir: Seq<char>, date: Seq<char>) -> Seq<char> {
    join(dir, date + ".txt"@)
}

/// The steps that make the report for `date`, given the set of paths
/// that exist: none where the report exists; else the template, written
/// first where it is missing, copied to the report.
pub open spec fn create_steps(dir: Seq<char>, date: Seq<char>, present: Set<Seq<char>>) -> Seq<
    FsStep,
> {
    let dst = report_path(dir, date);
    let tpl = template_path(dir);
    if present.contains(dst) {
        seq![]
    } else if present.contains(tpl) {
        seq![FsStep::Copy(tpl, dst)]
    } else {
        seq![FsStep::Write(tpl, template_text()), FsStep::Copy(tpl, dst)]
    }
}

/// The files after the report for `date` is made in `fs`.
pub open spec fn create_effect(dir: Seq<char>, date: Seq<char>, fs: Files) -> Files {
    run(fs, create_steps(dir, date, fs.dom()))
}

/// The archive directory of `src`: `dir/Archive/YYYY/MM`.
pub open spec fn archive_dir(dir: Seq<char>, src: Seq<char>) -> Seq<char> {
    join(dir, archive_subdir(file_name(src)))
}

/// The archived copy of `src`: `dir/Archive/YYYY/MM/YYYYMMDD.txt`.
pub open spec fn archive_target(dir: Seq<char>, src: Seq<char>) -> Seq<char> {
    join(archive_dir(dir, src), file_name(src))
}

/// The steps that archive `src`. `seen` holds the texts of `src` and of its
/// archived copy where that copy exists. The archive directory is made; the
/// file is copied where no copy exists or the digests of the two differ.
pub open spec fn archive_steps(
    dir: Seq<char>,
    src: Seq<char>,
    seen: Option<(Seq<char>, Seq<char>)>,
) -> Seq<FsStep> {
    let make_dir = seq![FsStep::CreateDirAll(archive_dir(dir, src))];
    match seen {
        None => make_dir.push(FsStep::Copy(src, archive_target(dir, src))),
        Some((now, kept)) => if md5_of_text(now) != md5_of_text(kept) {
            make_dir.push(FsStep::Copy(src, archive_target(dir, src)))
        } else {
            make_dir
        },
    }
}

/// What archiving `src` sees in `fs`.
pub open spec fn archive_view(dir: Seq<char>, src: Seq<char>, fs: Files) -> Option<
    (Seq<char>, Seq<char>),
> {
    let dst = archive_target(dir, src);
    if fs.contains_key(dst) {
        Some((fs[src], fs[dst]))
    } else {
        None
    }
}

/// The files after `src` is archived in `fs`.
pub open spec fn archive_effect(dir: Seq<char>, src: Seq<char>, fs: Files) -> Files {
    run(fs, archive_steps(dir, src, archive_view(dir, src, fs)))
}

/// The paths of `paths` whose file names are dated report names, in order.
pub open spec fn dated_only(paths: Seq<Seq<char>>) -> Seq<Seq<char>>
    decreases paths.len(),
{
    if paths.len() == 0 {
        paths
    } else {
        let rest = dated_only(paths.drop_last());
        if is_dated_name(file_name(paths.last())) {
            rest.push(paths.last())
        } else {
            rest
        }
    }
}

/// The files after each of `srcs` is archived in `fs`, in order.
pub open spec fn archive_each(dir: Seq<char>, srcs: Seq<Seq<char>>, fs: Files) -> Files
    decreases srcs.len(),
{
    if srcs.len() == 0 {
        fs
    } else {
        archive_effect(dir, srcs.last(), archive_each(dir, srcs.drop_last(), fs))
    }
}

/// The files after the reports of `listing` are archived: each listed path
/// that `archive_all` keeps is archived, in order.
pub open spec fn archive_all_effect(dir: Seq<char>, listing: Seq<Seq<char>>, fs: Files) -> Files {
    archive_each(dir, dated_only(listing), fs)
}

/// Makes and files the daily work reports of one directory.
pub struct WorkReportGenerator {
    exec_dir: String,
}

impl View for WorkReportGenerator {
    type V = Seq<char>;

    /// The base directory.
    closed spec fn view(&self) -> Seq<char> {
        self.exec_dir@
    }
}

impl WorkReportGenerator {
    /// A generator for the reports in `dir`.
    pub fn new(dir: &str) -> (r: WorkReportGenerator)
        ensures
            r@ == dir@,
    {
        WorkReportGenerator { exec_dir: dir.to_owned() }
    }

    /// The base directory.
    pub fn dir(&self) -> (r: &str)
        ensures
            r@ == self@,
    {
        self.exec_dir.as_str()
    }

    /// The text a missing `Template.txt` is created with.
    pub fn template_content() -> (r: String)
        ensures
            r@ == template_text(),
    {
        "<Today's task>\n-\n-\n\n<TODO>\n-\n-\n".to_owned()
    }

    /// The path of `Template.txt`.
    pub fn template_path(&self) -> (r: String)
        ensures
            r@ == template_path(self@),
    {
        join_path(self.exec_dir.as_str(), "Template.txt")
    }

    /// The path of the report for `date`.
    pub fn report_path(&self, date: &str) -> (r: String)
        ensures
            r@ == report_path(self@, date@),
    {
        let mut name = date.to_owned();
        name.append(".txt");
        join_path(self.exec_dir.as_str(), name.as_str())
    }

    /// The steps that make the report for `date` (`YYYYMMDD`, not checked),
    /// where `existing` lists the paths that exist. Nothing is done where the
    /// report exists; a missing template is written first.
    pub fn create_new(&self, date: &str, existing: &Vec<String>) -> (r: Vec<FsOp>)
        ensures
            steps_of(r@) == create_steps(self@, date@, paths_of(existing@)),
    {
        let dst = self.report_path(date);
        let tpl = self.template_path();
        let mut ops: Vec<FsOp> = Vec::new();
        if listed(existing, &dst) {
            assert(steps_of(ops@) =~= create_steps(self@, date@, paths_of(existing@)));
            return ops;
        }
        if !listed(existing, &tpl) {
            ops.push(FsOp::Write { path: tpl.clone(), content: Self::template_content() });
        }
        ops.push(FsOp::Copy { from: tpl, to: dst });
        assert(steps_of(ops@) =~= create_steps(self@, date@, paths_of(existing@)));
        ops
    }

    /// The steps that make today's report, where today is the local date
    /// `year`-`month`-`day` and `existing` lists the paths that exist. There
    /// are none where the date has no eight-digit stamp.
    pub fn create_for_today(&self, year: i32, month: u32, day: u32, existing: &Vec<String>) -> (r:
        Option<Vec<FsOp>>)
        ensures
            r is Some <==> is_stampable(year, month, day),
            r matches Some(ops) ==> steps_of(ops@) == create_steps(
                self@,
                date_stamp(year as int, month as int, day as int),
                paths_of(existing@),
            ),
    {
        let stamp = stamp_of(year, month, day)?;
        Some(self.create_new(stamp.as_str(), existing))
    }

    /// Where `src_path` is archived: `Archive/YYYY/MM/` in the base
    /// directory, under the same file name.
    pub fn archive_destination(&self, src_path: &str) -> (r: Result<String, ArchiveError>)
        ensures
            r is Ok <==> is_archivable_name(file_name(src_path@)),
            r matches Ok(p) ==> p@ == archive_target(self@, src_path@),
    {
        let name = file_name_of(src_path);
        let sub = generate_partial_path_for_archive_dir(name.as_str())?;
        let dst_dir = join_path(self.exec_dir.as_str(), sub.as_str());
        Ok(join_path(dst_dir.as_str(), name.as_str()))
    }

    /// The steps that archive `src_path`. `seen` is `None` where the archived
    /// copy does not exist, and else the texts of `src_path` and of the copy.
    /// Fails where the file name does not start with eight digits and end in
    /// `.txt`.
    pub fn archive(&self, src_path: &str, seen: Option<(String, String)>) -> (r: Result<
        Vec<FsOp>,
        ArchiveError,
    >)
        ensures
            r is Ok <==> is_archivable_name(file_name(src_path@)),
            r matches Ok(ops) ==> steps_of(ops@) == archive_steps(
                self@,
                src_path@,
                match seen {
                    None => None,
                    Some((a, b)) => Some((a@, b@)),
                },
            ),
    {
        let name = file_name_of(src_path);
        let sub = generate_partial_path_for_archive_dir(name.as_str())?;
        let dst_dir = join_path(self.exec_dir.as_str(), sub.as_str());
        let dst_path = join_path(dst_dir.as_str(), name.as_str());
        let copy = match &seen {
            None => true,
            Some((now, kept)) => updated(now.as_str(), kept.as_str()),
        };
        let mut ops: Vec<FsOp> = Vec::new();
        ops.push(FsOp::CreateDirAll { path: dst_dir });
        if copy {
            ops.push(FsOp::Copy { from: src_path.to_owned(), to: dst_path });
        }
        assert(steps_of(ops@) =~= archive_steps(
            self@,
            src_path@,
            match seen {
                None => None,
                Some((a, b)) => Some((a@, b@)),
            },
        ));
        Ok(ops)
    }

    /// The paths of `paths` to archive, in order: those whose file name is
    /// exactly eight digits followed by `.txt`.
    pub fn archive_all(&self, paths: &Vec<String>) -> (r: Vec<String>)
        ensures
            texts_of(r@) == dated_only(texts_of(paths@)),
    {
        let mut r: Vec<String> = Vec::new();
        let mut i: usize = 0;
        while i < paths.len()
            invariant
                i <= paths@.len(),
                texts_of(r@) == dated_only(texts_of(paths@).take(i as int)),
            decreases paths@.len() - i,
        {
            let p = &paths[i];
            let name = file_name_of(p.as_str());
            proof {
                let t = texts_of(paths@).take(i as int + 1);
                assert(t.drop_last() =~= texts_of(paths@).take(i as int));
                assert(t.last() == p@);
            }
            if is_dated_report_name(name.as_str()) {
                r.push(p.clone());
            }
            i = i + 1;
            assert(texts_of(r@) =~= dated_only(texts_of(paths@).take(i as int)));
        }
        assert(texts_of(paths@).take(i as int) =~= texts_of(paths@));
        r
    }
}

} // verus!
