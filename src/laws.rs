//! What holds across calls: proved over the filesystem model.

use vstd::prelude::*;
use crate::digest::md5_of_text;
use crate::generator::{
    archive_all_effect, archive_each, archive_effect, archive_target, create_effect, create_steps, dated_only, report_path,
    template_path, template_text,
};
use crate::model::{apply, run, Files, FsStep};
use crate::naming::is_dated_name;
use crate::text::{file_name, join};

verus! {

proof fn lemma_run_two(fs: Files, a: FsStep, b: FsStep)
    ensures
        run(fs, seq![a, b]) == apply(apply(fs, a), b),
{
    let s = seq![a, b];
    assert(s.drop_first() =~= seq![b]);
    assert(seq![b].drop_first() =~= Seq::<FsStep>::empty());
    assert(run(apply(fs, a), seq![b]) == run(apply(apply(fs, a), b), Seq::<FsStep>::empty()));
}

proof fn lemma_run_one(fs: Files, a: FsStep)
    ensures
        run(fs, seq![a]) == apply(fs, a),
{
    assert(seq![a].drop_first() =~= Seq::<FsStep>::empty());
    assert(run(apply(fs, a), Seq::<FsStep>::empty()) == apply(fs, a));
}

/// Making the report for a date: afterwards the report exists; where it
/// existed, nothing changed; where it did not, it holds the text of the
/// template, and a missing template was written with its fixed text.
pub proof fn lemma_create_new_outcome(dir: Seq<char>, date: Seq<char>, fs: Files)
    ensures
        ({
            let e = create_effect(dir, date, fs);
            let dst = report_path(dir, date);
            let tpl = template_path(dir);
            &&& e.contains_key(dst)
            &&& fs.contains_key(dst) ==> e == fs
            &&& !fs.contains_key(dst) && fs.contains_key(tpl) ==> e == fs.insert(dst, fs[tpl])
            &&& !fs.contains_key(dst) && !fs.contains_key(tpl) ==> {
                &&& e.contains_key(tpl)
                &&& e[tpl] == template_text()
                &&& e[dst] == e[tpl]
            }
        }),
{
    let dst = report_path(dir, date);
    let tpl = template_path(dir);
    if fs.contains_key(dst) {
    } else if fs.contains_key(tpl) {
        lemma_run_one(fs, FsStep::Copy(tpl, dst));
    } else {
        lemma_run_two(fs, FsStep::Write(tpl, template_text()), FsStep::Copy(tpl, dst));
    }
}

/// Making the report for a date twice changes nothing the second time.
pub proof fn lemma_create_new_idempotent(dir: Seq<char>, date: Seq<char>, fs: Files)
    ensures
        create_effect(dir, date, create_effect(dir, date, fs)) == create_effect(dir, date, fs),
{
    lemma_create_new_outcome(dir, date, fs);
    lemma_create_new_outcome(dir, date, create_effect(dir, date, fs));
}

/// Where the template is missing, making the report for a missing date
/// leaves the template with its fixed text and the report equal to it.
pub proof fn lemma_template_generated(dir: Seq<char>, date: Seq<char>, fs: Files)
    requires
        !fs.contains_key(template_path(dir)),
        !fs.contains_key(report_path(dir, date)),
    ensures
        create_effect(dir, date, fs).contains_key(template_path(dir)),
        create_effect(dir, date, fs)[template_path(dir)] == template_text(),
        create_effect(dir, date, fs).contains_key(report_path(dir, date)),
        create_effect(dir, date, fs)[report_path(dir, date)] == create_effect(
            dir,
            date,
            fs,
        )[template_path(dir)],
{
    lemma_create_new_outcome(dir, date, fs);
}

/// Archiving a report: with no archived copy, the copy is made; with a copy
/// of equal text, nothing changes; with a copy whose digest differs, the copy
/// is overwritten by the report.
pub proof fn lemma_archive_outcome(dir: Seq<char>, src: Seq<char>, fs: Files)
    requires
        fs.contains_key(src),
    ensures
        ({
            let e = archive_effect(dir, src, fs);
            let dst = archive_target(dir, src);
            &&& !fs.contains_key(dst) ==> e == fs.insert(dst, fs[src])
            &&& fs.contains_key(dst) && fs[dst] == fs[src] ==> e == fs
            &&& fs.contains_key(dst) && md5_of_text(fs[src]) != md5_of_text(fs[dst]) ==> e
                == fs.insert(dst, fs[src])
        }),
{
    let dst = archive_target(dir, src);
    let d = FsStep::CreateDirAll(crate::generator::archive_dir(dir, src));
    let c = FsStep::Copy(src, dst);
    assert(seq![d].push(c) =~= seq![d, c]);
    lemma_run_one(fs, d);
    lemma_run_two(fs, d, c);
}

/// A report whose archived copy holds the same text: archiving it again
/// changes nothing. Once the report's text changes to one with another
/// digest, archiving it again brings the copy up to date.
pub proof fn lemma_rearchive(dir: Seq<char>, src: Seq<char>, fs: Files, edited: Seq<char>)
    requires
        fs.contains_key(src),
        fs.contains_key(archive_target(dir, src)),
        fs[archive_target(dir, src)] == fs[src],
        src != archive_target(dir, src),
        md5_of_text(edited) != md5_of_text(fs[src]),
    ensures
        archive_effect(dir, src, fs) == fs,
        archive_effect(dir, src, fs.insert(src, edited))[archive_target(dir, src)] == edited,
        archive_effect(dir, src, fs.insert(src, edited))[src] == edited,
{
    lemma_archive_outcome(dir, src, fs);
    lemma_archive_outcome(dir, src, fs.insert(src, edited));
}

/// From a report with no archived copy: the first archiving makes the copy,
/// the second changes nothing, and after the report is edited to a text with
/// another digest, the next archiving overwrites the copy with it.
pub proof fn lemma_archive_edit_rearchive(
    dir: Seq<char>,
    src: Seq<char>,
    fs: Files,
    edited: Seq<char>,
)
    requires
        fs.contains_key(src),
        !fs.contains_key(archive_target(dir, src)),
        src != archive_target(dir, src),
        md5_of_text(edited) != md5_of_text(fs[src]),
    ensures
        ({
            let once = archive_effect(dir, src, fs);
            let dst = archive_target(dir, src);
            let last = archive_effect(dir, src, once.insert(src, edited));
            &&& once.contains_key(dst) && once[dst] == fs[src]
            &&& archive_effect(dir, src, once) == once
            &&& last[dst] == edited
            &&& last[src] == edited
        }),
{
    lemma_archive_outcome(dir, src, fs);
    let once = archive_effect(dir, src, fs);
    lemma_rearchive(dir, src, once, edited);
}

/// The paths kept for archiving are exactly the listed paths whose file name
/// is eight digits followed by `.txt`.
pub proof fn lemma_dated_only_members(paths: Seq<Seq<char>>)
    ensures
        forall|p: Seq<char>|
            #[trigger] dated_only(paths).contains(p) <==> paths.contains(p) && is_dated_name(
                file_name(p),
            ),
    decreases paths.len(),
{
    if paths.len() > 0 {
        let init = paths.drop_last();
        let last = paths.last();
        let r = dated_only(init);
        lemma_dated_only_members(init);
        assert forall|p: Seq<char>|
            #[trigger] dated_only(paths).contains(p) <==> paths.contains(p) && is_dated_name(
                file_name(p),
            ) by {
            if init.contains(p) {
                let k = choose|k: int| 0 <= k < init.len() && init[k] == p;
                assert(paths[k] == p);
            }
            if paths.contains(p) && p != last {
                let k = choose|k: int| 0 <= k < paths.len() && paths[k] == p;
                assert(init[k] == p);
            }
            if is_dated_name(file_name(last)) {
                assert(dated_only(paths) == r.push(last));
                if r.push(last).contains(p) && p != last {
                    let k = choose|k: int| 0 <= k < r.len() + 1 && r.push(last)[k] == p;
                    assert(r[k] == p);
                }
                if r.contains(p) {
                    let k = choose|k: int| 0 <= k < r.len() && r[k] == p;
                    assert(r.push(last)[k] == p);
                }
                assert(r.push(last)[r.len() as int] == last);
                assert(paths[paths.len() - 1] == last);
            } else {
                assert(dated_only(paths) == r);
                assert(paths[paths.len() - 1] == last);
            }
        }
    }
}

/// The archived copy of `p` agrees with `p` in `e`, as `p` stood in `fs`.
pub open spec fn filed(dir: Seq<char>, p: Seq<char>, fs: Files, e: Files) -> bool {
    e.contains_key(archive_target(dir, p)) && e[archive_target(dir, p)] == fs[p]
}

/// What archiving needs of a set of reports to leave each one's copy equal
/// to it: each report exists; no report is the copy of one; distinct reports
/// have distinct copies; and an existing copy either holds the report's text
/// already or has another digest.
pub open spec fn archivable_together(dir: Seq<char>, srcs: Seq<Seq<char>>, fs: Files) -> bool {
    &&& forall|p: Seq<char>| #[trigger] srcs.contains(p) ==> fs.contains_key(p)
    &&& forall|p: Seq<char>, q: Seq<char>|
        #![trigger srcs.contains(p), archive_target(dir, q)]
        srcs.contains(p) && srcs.contains(q) ==> p != archive_target(dir, q)
    &&& forall|p: Seq<char>, q: Seq<char>|
        srcs.contains(p) && srcs.contains(q) && #[trigger] archive_target(dir, p)
            == #[trigger] archive_target(dir, q) ==> p == q
    &&& forall|p: Seq<char>|
        #![trigger srcs.contains(p)]
        srcs.contains(p) && fs.contains_key(archive_target(dir, p)) ==> fs[archive_target(dir, p)]
            == fs[p] || md5_of_text(fs[p]) != md5_of_text(fs[archive_target(dir, p)])
}

/// No copy of any of `srcs` stands at `k`.
pub open spec fn untouched(dir: Seq<char>, srcs: Seq<Seq<char>>, k: Seq<char>) -> bool {
    forall|q: Seq<char>| #[trigger] srcs.contains(q) ==> k != archive_target(dir, q)
}

proof fn lemma_archive_each(dir: Seq<char>, srcs: Seq<Seq<char>>, fs: Files)
    requires
        archivable_together(dir, srcs, fs),
    ensures
        forall|p: Seq<char>|
            #[trigger] srcs.contains(p) ==> filed(dir, p, fs, archive_each(dir, srcs, fs)),
        forall|k: Seq<char>|
            #[trigger] untouched(dir, srcs, k) ==> (archive_each(dir, srcs, fs).contains_key(k)
                == fs.contains_key(k) && (fs.contains_key(k) ==> archive_each(dir, srcs, fs)[k]
                == fs[k])),
    decreases srcs.len(),
{
    if srcs.len() > 0 {
        let init = srcs.drop_last();
        let last = srcs.last();
        assert(srcs =~= init.push(last));
        assert forall|p: Seq<char>| init.contains(p) implies srcs.contains(p) by {
            let k = choose|k: int| 0 <= k < init.len() && init[k] == p;
            assert(srcs[k] == p);
        }
        assert(srcs[srcs.len() - 1] == last);
        assert(srcs.contains(last));
        lemma_archive_each(dir, init, fs);
        let before = archive_each(dir, init, fs);
        let dst = archive_target(dir, last);
        assert(untouched(dir, init, last));
        assert(before.contains_key(last) && before[last] == fs[last]);
        if !init.contains(last) {
            assert(untouched(dir, init, dst));
        } else {
            assert(filed(dir, last, fs, before));
        }
        lemma_archive_outcome(dir, last, before);
        let after = archive_effect(dir, last, before);
        assert(after == archive_each(dir, srcs, fs));
        assert(filed(dir, last, fs, after));
        assert forall|p: Seq<char>| #[trigger] srcs.contains(p) implies filed(dir, p, fs, after) by {
            if p != last {
                let k = choose|k: int| 0 <= k < srcs.len() && srcs[k] == p;
                assert(init[k] == p);
                assert(init.contains(p));
                assert(filed(dir, p, fs, before));
                assert(archive_target(dir, p) != dst);
            }
        }
        assert forall|k: Seq<char>| #[trigger] untouched(dir, srcs, k) implies (
        after.contains_key(k) == fs.contains_key(k) && (fs.contains_key(k) ==> after[k]
            == fs[k])) by {
            assert(k != dst);
            assert(untouched(dir, init, k));
        }
    }
}

/// Archiving a directory: every listed path whose file name is eight digits
/// followed by `.txt` has, afterwards, an archived copy holding its text,
/// where the reports can be archived together.
pub proof fn lemma_archive_all_files_each(dir: Seq<char>, listing: Seq<Seq<char>>, fs: Files)
    requires
        archivable_together(dir, dated_only(listing), fs),
    ensures
        forall|p: Seq<char>|
            #[trigger] listing.contains(p) && is_dated_name(file_name(p)) ==> filed(
                dir,
                p,
                fs,
                archive_all_effect(dir, listing, fs),
            ),
{
    lemma_dated_only_members(listing);
    lemma_archive_each(dir, dated_only(listing), fs);
    assert forall|p: Seq<char>|
        #[trigger] listing.contains(p) && is_dated_name(file_name(p)) implies filed(
            dir,
            p,
            fs,
            archive_all_effect(dir, listing, fs),
        ) by {
        assert(dated_only(listing).contains(p));
    }
}

proof fn lemma_file_name_join(dir: Seq<char>, name: Seq<char>)
    requires
        forall|i: int| 0 <= i < name.len() ==> name[i] != '/',
    ensures
        file_name(join(dir, name)) == name,
    decreases name.len(),
{
    if name.len() == 0 {
        assert(join(dir, name).last() == '/');
    } else {
        let init = name.drop_last();
        lemma_file_name_join(dir, init);
        assert(join(dir, name).drop_last() =~= join(dir, init));
        assert(join(dir, name).last() == name.last());
        assert(init.push(name.last()) =~= name);
    }
}

proof fn lemma_dated_name_has_no_slash(name: Seq<char>)
    requires
        is_dated_name(name),
    ensures
        forall|i: int| 0 <= i < name.len() ==> name[i] != '/',
{
    assert forall|i: int| 0 <= i < name.len() implies name[i] != '/' by {
        if i < 8 {
            assert(crate::naming::is_digit(name[i]));
        }
    }
}

/// Archiving one report changes no path but that of its copy.
proof fn lemma_archive_frame(dir: Seq<char>, src: Seq<char>, fs: Files, k: Seq<char>)
    requires
        k != archive_target(dir, src),
    ensures
        archive_effect(dir, src, fs).contains_key(k) == fs.contains_key(k),
        fs.contains_key(k) ==> archive_effect(dir, src, fs)[k] == fs[k],
{
    let d = FsStep::CreateDirAll(crate::generator::archive_dir(dir, src));
    let c = FsStep::Copy(src, archive_target(dir, src));
    assert(seq![d].push(c) =~= seq![d, c]);
    lemma_run_one(fs, d);
    lemma_run_two(fs, d, c);
}

proof fn lemma_archive_each_frame(dir: Seq<char>, srcs: Seq<Seq<char>>, fs: Files, k: Seq<char>)
    requires
        untouched(dir, srcs, k),
    ensures
        archive_each(dir, srcs, fs).contains_key(k) == fs.contains_key(k),
        fs.contains_key(k) ==> archive_each(dir, srcs, fs)[k] == fs[k],
    decreases srcs.len(),
{
    if srcs.len() > 0 {
        let init = srcs.drop_last();
        assert(srcs[srcs.len() - 1] == srcs.last());
        assert(srcs.contains(srcs.last()));
        assert forall|q: Seq<char>| #[trigger] init.contains(q) implies k != archive_target(dir, q) by {
            let j = choose|j: int| 0 <= j < init.len() && init[j] == q;
            assert(srcs[j] == q);
            assert(srcs.contains(q));
        }
        lemma_archive_each_frame(dir, init, fs, k);
        lemma_archive_frame(dir, srcs.last(), archive_each(dir, init, fs), k);
    }
}

/// Archiving a directory leaves every path whose file name is not eight
/// digits followed by `.txt` as it was: such a file gets no copy, and no
/// such path is overwritten.
pub proof fn lemma_archive_all_leaves_others(
    dir: Seq<char>,
    listing: Seq<Seq<char>>,
    fs: Files,
    k: Seq<char>,
)
    requires
        !is_dated_name(file_name(k)),
    ensures
        archive_all_effect(dir, listing, fs).contains_key(k) == fs.contains_key(k),
        fs.contains_key(k) ==> archive_all_effect(dir, listing, fs)[k] == fs[k],
{
    let kept = dated_only(listing);
    lemma_dated_only_members(listing);
    assert forall|q: Seq<char>| #[trigger] kept.contains(q) implies k != archive_target(dir, q) by {
        lemma_dated_name_has_no_slash(file_name(q));
        lemma_file_name_join(crate::generator::archive_dir(dir, q), file_name(q));
    }
    assert(untouched(dir, kept, k));
    lemma_archive_each_frame(dir, kept, fs, k);
}

} // verus!
