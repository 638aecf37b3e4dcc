//! The merge stage: the index is pruned of files that are gone, the
//! concatenation tool is given its arguments, and the working files are
//! scheduled for removal.

use crate::text::{
    chars_of, extend_chars, found_at, has_at, is_line, join_path, joined, lemma_line_end_bounds,
    lemma_lines_concat, lemma_single_line, line_end, lines_from, lines_of, rows, same_text,
    slice_of, split_lines, text_of, trim_chars, trimmed,
};
use crate::types::{DownloadError, DownloadInfoContext, DownloadInfoResponse, ResponseView};
use crate::utils::{get_path_name, path_name};
use vstd::prelude::*;

verus! {

/// How many seconds pass between a successful merge and the removal of the
/// working files.
pub const CLEANUP_DELAY_SECS: u64 = 20;

/// The word that starts a line of the index, with the space behind it.
pub open spec fn file_word() -> Seq<char> {
    seq!['f', 'i', 'l', 'e', ' ']
}

/// A text without the `file ` words at its start, however many there are.
pub open spec fn without_file_words(s: Seq<char>) -> Seq<char>
    decreases s.len(),
{
    if has_at(s, file_word(), 0) {
        without_file_words(s.skip(5))
    } else {
        s
    }
}

/// The file that a line of the index names: the line without blanks
/// around it, without the `file ` in front and without blanks again. A
/// blank line names none.
pub open spec fn line_target(line: Seq<char>) -> Option<Seq<char>> {
    let t = trimmed(line);
    if t.len() == 0 {
        None
    } else if has_at(t, file_word(), 0) {
        Some(trimmed(without_file_words(t)))
    } else {
        Some(t)
    }
}

/// The files that the given lines name, in order.
pub open spec fn targets_of(lines: Seq<Seq<char>>) -> Seq<Seq<char>>
    decreases lines.len(),
{
    if lines.len() == 0 {
        Seq::empty()
    } else {
        match line_target(lines.last()) {
            Some(p) => targets_of(lines.drop_last()).push(p),
            None => targets_of(lines.drop_last()),
        }
    }
}

/// The files that an index names, in order.
pub open spec fn index_targets(index: Seq<char>) -> Seq<Seq<char>> {
    targets_of(lines_of(index))
}

/// The given lines without the blank ones and without those whose file
/// does not exist. `exists` says of each named file, in order, whether it
/// exists; a file it does not speak of counts as gone.
pub open spec fn kept_lines(lines: Seq<Seq<char>>, exists: Seq<bool>) -> Seq<char>
    decreases lines.len(),
{
    if lines.len() == 0 {
        Seq::empty()
    } else {
        let before = kept_lines(lines.drop_last(), exists);
        let k = targets_of(lines.drop_last()).len() as int;
        if line_target(lines.last()) is Some && k < exists.len() && exists[k] {
            before + lines.last()
        } else {
            before
        }
    }
}

/// The pruned index: its lines, unchanged, that name a file that exists.
pub open spec fn pruned_index(index: Seq<char>, exists: Seq<bool>) -> Seq<char> {
    kept_lines(lines_of(index), exists)
}

fn file_word_chars() -> (w: Vec<char>)
    ensures
        w@ == file_word(),
{
    let mut w: Vec<char> = Vec::new();
    w.push('f');
    w.push('i');
    w.push('l');
    w.push('e');
    w.push(' ');
    assert(w@ =~= file_word());
    w
}

/// The file that a line names: see [`line_target`].
fn target_of_line(line: &Vec<char>, word: &Vec<char>) -> (r: Option<Vec<char>>)
    requires
        word@ == file_word(),
    ensures
        r is Some == line_target(line@) is Some,
        r is Some ==> r->0@ == line_target(line@)->0,
{
    let t = trim_chars(line);
    if t.len() == 0 {
        return None;
    }
    if !found_at(&t, word, 0) {
        return Some(t);
    }
    let mut from: usize = 0;
    assert(t@.skip(0) =~= t@);
    while found_at(&t, word, from)
        invariant
            from <= t.len(),
            word@ == file_word(),
            without_file_words(t@) == without_file_words(t@.skip(from as int)),
        decreases t.len() - from,
    {
        proof {
            assert(t@.skip(from as int).subrange(0, 5) =~= t@.subrange(from as int, from + 5));
            assert(t@.skip(from as int).skip(5) =~= t@.skip(from + 5));
        }
        from += 5;
    }
    proof {
        if has_at(t@.skip(from as int), file_word(), 0) {
            assert(t@.skip(from as int).subrange(0, 5) =~= t@.subrange(from as int, from + 5));
        }
        assert(t@.skip(0) =~= t@);
    }
    let rest = slice_of(&t, from, t.len());
    assert(rest@ =~= t@.skip(from as int));
    Some(trim_chars(&rest))
}

/// The files that an index names, in order: one for each line that is not
/// blank.
pub fn index_paths(index_text: &str) -> (r: Vec<String>)
    ensures
        r@.map_values(|s: String| s@) == index_targets(index_text@),
{
    let v = chars_of(index_text);
    let lines = split_lines(&v);
    let word = file_word_chars();
    let mut out: Vec<String> = Vec::new();
    let mut i: usize = 0;
    assert(rows(lines@).take(0) =~= Seq::empty());
    assert(out@.map_values(|s: String| s@) =~= Seq::empty());
    while i < lines.len()
        invariant
            i <= lines.len(),
            word@ == file_word(),
            out@.map_values(|s: String| s@) == targets_of(rows(lines@).take(i as int)),
        decreases lines.len() - i,
    {
        proof {
            assert(rows(lines@).take(i + 1).drop_last() =~= rows(lines@).take(i as int));
            assert(rows(lines@).take(i + 1).last() == lines@[i as int]@);
        }
        match target_of_line(&lines[i], &word) {
            Some(p) => {
                let ghost before = out@.map_values(|s: String| s@);
                let text = text_of(&p);
                out.push(text);
                assert(out@.map_values(|s: String| s@) =~= before.push(p@));
            },
            None => {},
        }
        i += 1;
    }
    assert(rows(lines@).take(lines.len() as int) =~= rows(lines@));
    out
}

/// Prunes the index of the lines whose file is gone: see [`pruned_index`].
/// `exists` answers, for each file that [`index_paths`] gives, whether it
/// exists.
pub fn clear_download_fail_ts(index_text: &str, exists: &Vec<bool>) -> (r: String)
    ensures
        r@ == pruned_index(index_text@, exists@),
{
    let v = chars_of(index_text);
    let lines = split_lines(&v);
    let word = file_word_chars();
    let mut out: Vec<char> = Vec::new();
    let mut k: usize = 0;
    let mut i: usize = 0;
    assert(rows(lines@).take(0) =~= Seq::empty());
    while i < lines.len()
        invariant
            i <= lines.len(),
            k <= i,
            word@ == file_word(),
            k == targets_of(rows(lines@).take(i as int)).len(),
            out@ == kept_lines(rows(lines@).take(i as int), exists@),
        decreases lines.len() - i,
    {
        proof {
            assert(rows(lines@).take(i + 1).drop_last() =~= rows(lines@).take(i as int));
            assert(rows(lines@).take(i + 1).last() == lines@[i as int]@);
        }
        match target_of_line(&lines[i], &word) {
            Some(_) => {
                if k < exists.len() && exists[k] {
                    extend_chars(&mut out, &lines[i]);
                }
                k += 1;
            },
            None => {},
        }
        i += 1;
    }
    assert(rows(lines@).take(lines.len() as int) =~= rows(lines@));
    text_of(&out)
}

/// The call of the concatenation tool: the program, its arguments in
/// order, and the file it writes.
#[derive(Debug)]
pub struct MergeCommand {
    pub program: String,
    pub args: Vec<String>,
    pub output: String,
}

/// Where the merged file goes: beside the index, under the same name with
/// `mp4` in place of the `txt` at its end.
pub open spec fn output_path(index: Seq<char>) -> Seq<char> {
    if index.len() >= 3 && index.subrange(index.len() - 3, index.len() as int) == seq![
        't',
        'x',
        't',
    ] {
        index.subrange(0, index.len() - 3) + seq!['m', 'p', '4']
    } else {
        index + seq!['.', 'm', 'p', '4']
    }
}

/// The concatenation tool for a platform: under the install root, in
/// `resources` and the platform's directory, named `ffmpeg_macos` on macOS
/// and `ffmpeg` elsewhere.
pub open spec fn tool_path(install_root: Seq<char>, platform: Seq<char>) -> Seq<char> {
    joined(
        joined(joined(install_root, "resources"@), platform),
        if platform == "macos"@ {
            "ffmpeg_macos"@
        } else {
            "ffmpeg"@
        },
    )
}

/// The arguments of the concatenation tool for an index and an output file.
pub open spec fn tool_args(index: Seq<char>, output: Seq<char>) -> Seq<Seq<char>> {
    seq![
        "-y"@,
        "-f"@,
        "concat"@,
        "-safe"@,
        "0"@,
        "-i"@,
        index,
        "-bsf:a"@,
        "aac_adtstoasc"@,
        "-c"@,
        "copy"@,
        output,
    ]
}

/// The file that the merge writes for an index: see [`output_path`].
pub fn merged_file(index: &str) -> (r: String)
    ensures
        r@ == output_path(index@),
{
    let v = chars_of(index);
    let n = v.len();
    let mut out: Vec<char>;
    if n >= 3 && v[n - 3] == 't' && v[n - 2] == 'x' && v[n - 1] == 't' {
        assert(v@.subrange(n - 3, n as int) =~= seq!['t', 'x', 't']);
        out = slice_of(&v, 0, n - 3);
        out.push('m');
        out.push('p');
        out.push('4');
        assert(out@ =~= v@.subrange(0, n - 3) + seq!['m', 'p', '4']);
    } else {
        proof {
            if n >= 3 {
                let e = v@.subrange(n - 3, n as int);
                assert(e[0] == v@[n - 3] && e[1] == v@[n - 2] && e[2] == v@[n - 1]);
                assert(seq!['t', 'x', 't'][0] == 't' && seq!['t', 'x', 't'][1] == 'x' && seq![
                    't',
                    'x',
                    't',
                ][2] == 't');
            }
        }
        out = v;
        out.push('.');
        out.push('m');
        out.push('p');
        out.push('4');
        assert(out@ =~= index@ + seq!['.', 'm', 'p', '4']);
    }
    text_of(&out)
}

/// Prepares the call of the concatenation tool for a download: the tool
/// for the platform, the fixed arguments around the index and the output
/// file, both in the form in which paths are shown to other programs.
pub fn merger(ctx: &DownloadInfoContext, platform: &str, install_root: &str) -> (cmd: MergeCommand)
    ensures
        cmd.program@ == tool_path(install_root@, platform@),
        cmd.output@ == output_path(path_name(ctx.index_path@, platform@)),
        cmd.args@.map_values(|s: String| s@) == tool_args(
            path_name(ctx.index_path@, platform@),
            cmd.output@,
        ),
{
    let index = get_path_name(ctx.index_path.as_str(), platform);
    let output = merged_file(index.as_str());
    let resources = join_path(install_root, "resources");
    let dir = join_path(resources.as_str(), platform);
    let program = if same_text(platform, "macos") {
        join_path(dir.as_str(), "ffmpeg_macos")
    } else {
        join_path(dir.as_str(), "ffmpeg")
    };
    let mut args: Vec<String> = Vec::new();
    args.push("-y".to_owned());
    args.push("-f".to_owned());
    args.push("concat".to_owned());
    args.push("-safe".to_owned());
    args.push("0".to_owned());
    args.push("-i".to_owned());
    args.push(index);
    args.push("-bsf:a".to_owned());
    args.push("aac_adtstoasc".to_owned());
    args.push("-c".to_owned());
    args.push("copy".to_owned());
    args.push(output.clone());
    assert(args@.map_values(|s: String| s@) =~= tool_args(
        path_name(ctx.index_path@, platform@),
        output@,
    ));
    MergeCommand { program, args, output }
}

/// What is removed once a merge has succeeded, and after how many seconds:
/// the segment directory and the three working files.
#[derive(Debug)]
pub struct CleanupPlan {
    pub delay_secs: u64,
    pub ts_dir: String,
    pub files: Vec<String>,
}

/// The removal that follows a successful merge: after the grace delay the
/// segment directory, then the manifest, the index and the success log.
pub fn delete_m3u8_tmp_file(ctx: &DownloadInfoContext) -> (plan: CleanupPlan)
    ensures
        plan.delay_secs == CLEANUP_DELAY_SECS,
        plan.ts_dir@ == ctx.ts_path@,
        plan.files@.map_values(|s: String| s@) == seq![
            ctx.json_path@,
            ctx.index_path@,
            ctx.json_success_path@,
        ],
{
    let mut files: Vec<String> = Vec::new();
    files.push(ctx.json_path.clone());
    files.push(ctx.index_path.clone());
    files.push(ctx.json_success_path.clone());
    assert(files@.map_values(|s: String| s@) =~= seq![
        ctx.json_path@,
        ctx.index_path@,
        ctx.json_success_path@,
    ]);
    CleanupPlan { delay_secs: CLEANUP_DELAY_SECS, ts_dir: ctx.ts_path.clone(), files }
}

/// What a successful merge hands over: the response that ends the task, and
/// the removal to schedule.
#[derive(Debug)]
pub struct MergeEnd {
    pub response: DownloadInfoResponse,
    pub cleanup: CleanupPlan,
}

/// A failed merge: the error, and what the tool wrote to its error stream.
#[derive(Debug)]
pub struct MergeFailure {
    pub error: DownloadError,
    pub stderr: String,
}

/// The response that ends a task in success.
pub open spec fn merger_response(id: Seq<char>) -> ResponseView {
    ResponseView {
        id,
        status: "downloadEnd"@,
        download_count: None,
        count: None,
        download_status: Some("downloadSuccess"@),
        mes_type: "end"@,
    }
}

/// Judges the exit of the concatenation tool. A success ends the task and
/// schedules the removal of the working files. A failure is an error that
/// carries the tool's error stream as it is.
pub fn merge_finished(ctx: &DownloadInfoContext, exit_ok: bool, stderr: String) -> (r: Result<
    MergeEnd,
    MergeFailure,
>)
    ensures
        match r {
            Ok(end) => {
                &&& exit_ok
                &&& end.response@ == merger_response(ctx.id@)
                &&& end.cleanup.delay_secs == CLEANUP_DELAY_SECS
                &&& end.cleanup.ts_dir@ == ctx.ts_path@
                &&& end.cleanup.files@.map_values(|s: String| s@) == seq![
                    ctx.json_path@,
                    ctx.index_path@,
                    ctx.json_success_path@,
                ]
            },
            Err(f) => !exit_ok && f.error == DownloadError::MergeFailed && f.stderr == stderr,
        },
{
    if exit_ok {
        Ok(
            MergeEnd {
                response: DownloadInfoResponse {
                    id: ctx.id.clone(),
                    status: "downloadEnd".to_owned(),
                    download_count: None,
                    count: None,
                    download_status: Some("downloadSuccess".to_owned()),
                    mes_type: "end".to_owned(),
                },
                cleanup: delete_m3u8_tmp_file(ctx),
            },
        )
    } else {
        Err(MergeFailure { error: DownloadError::MergeFailed, stderr })
    }
}

/// The names of a list whose flag is set. `exists` speaks of the names in
/// order; a name it does not speak of is left out.
pub open spec fn existing(targets: Seq<Seq<char>>, exists: Seq<bool>) -> Seq<Seq<char>>
    decreases targets.len(),
{
    if targets.len() == 0 {
        Seq::empty()
    } else {
        let before = existing(targets.drop_last(), exists);
        let k = targets.len() - 1;
        if k < exists.len() && exists[k] {
            before.push(targets.last())
        } else {
            before
        }
    }
}

/// Whether every text of the list is one line that ends with a line feed.
spec fn closed_lines(lines: Seq<Seq<char>>) -> bool {
    forall|i: int| 0 <= i < lines.len() ==> is_line(#[trigger] lines[i]) && lines[i].last() == '\n'
}

/// The lines of the list that name a file that exists, as a list.
spec fn kept_list(lines: Seq<Seq<char>>, exists: Seq<bool>) -> Seq<Seq<char>>
    decreases lines.len(),
{
    if lines.len() == 0 {
        Seq::empty()
    } else {
        let before = kept_list(lines.drop_last(), exists);
        let k = targets_of(lines.drop_last()).len() as int;
        if line_target(lines.last()) is Some && k < exists.len() && exists[k] {
            before.push(lines.last())
        } else {
            before
        }
    }
}

proof fn lemma_lines_are_lines(s: Seq<char>, from: int)
    requires
        0 <= from <= s.len(),
    ensures
        forall|i: int|
            0 <= i < lines_from(s, from).len() ==> is_line(#[trigger] lines_from(s, from)[i]),
        forall|i: int|
            0 <= i < lines_from(s, from).len() - 1 ==> (#[trigger] lines_from(s, from)[i]).last()
                == '\n',
    decreases s.len() - from,
{
    if from < s.len() {
        lemma_line_end_bounds(s, from);
        let e = line_end(s, from);
        if e >= s.len() {
            let l = s.subrange(from, s.len() as int);
            assert(is_line(l));
        } else {
            let l = s.subrange(from, e + 1);
            assert(is_line(l));
            assert(l.last() == '\n');
            lemma_lines_are_lines(s, e + 1);
            let rest = lines_from(s, e + 1);
            let all = lines_from(s, from);
            assert(all == seq![l] + rest);
            assert forall|i: int| 0 <= i < all.len() implies is_line(#[trigger] all[i]) by {
                if i > 0 {
                    assert(all[i] == rest[i - 1]);
                }
            }
            assert forall|i: int| 0 <= i < all.len() - 1 implies (#[trigger] all[i]).last()
                == '\n' by {
                if i > 0 {
                    assert(all[i] == rest[i - 1]);
                }
            }
        }
    }
}

proof fn lemma_kept_closed(lines: Seq<Seq<char>>, exists: Seq<bool>)
    requires
        closed_lines(lines),
    ensures
        lines_of(kept_lines(lines, exists)) == kept_list(lines, exists),
        kept_lines(lines, exists).len() == 0 || kept_lines(lines, exists).last() == '\n',
    decreases lines.len(),
{
    if lines.len() == 0 {
        assert(lines_of(Seq::<char>::empty()) =~= Seq::<Seq<char>>::empty());
    } else {
        let init = lines.drop_last();
        assert(closed_lines(init)) by {
            assert forall|i: int| 0 <= i < init.len() implies is_line(#[trigger] init[i])
                && init[i].last() == '\n' by {
                assert(init[i] == lines[i]);
            }
        }
        lemma_kept_closed(init, exists);
        let last = lines.last();
        assert(is_line(last) && last.last() == '\n') by {
            assert(last == lines[lines.len() - 1]);
        }
        lemma_single_line(last);
        lemma_lines_concat(kept_lines(init, exists), last);
        assert(kept_list(init, exists) + seq![last] =~= kept_list(init, exists).push(last));
    }
}

proof fn lemma_kept_targets(lines: Seq<Seq<char>>, exists: Seq<bool>)
    ensures
        targets_of(kept_list(lines, exists)) == existing(targets_of(lines), exists),
    decreases lines.len(),
{
    if lines.len() > 0 {
        let init = lines.drop_last();
        lemma_kept_targets(init, exists);
        let last = lines.last();
        if line_target(last) is Some {
            let p = line_target(last)->0;
            assert(targets_of(lines) == targets_of(init).push(p));
            assert(targets_of(lines).drop_last() =~= targets_of(init));
            let kept = kept_list(init, exists);
            assert(kept.push(last).drop_last() =~= kept);
        }
    }
}

/// Pruning leaves exactly the files that exist: the pruned index names the
/// files of the index whose flag in `exists` is set, in their order, and no
/// other.
pub proof fn lemma_pruned_index_names_existing(index: Seq<char>, exists: Seq<bool>)
    ensures
        index_targets(pruned_index(index, exists)) == existing(index_targets(index), exists),
{
    let lines = lines_of(index);
    lemma_lines_are_lines(index, 0);
    if lines.len() == 0 {
        assert(lines_of(Seq::<char>::empty()) =~= Seq::<Seq<char>>::empty());
    } else {
        let init = lines.drop_last();
        let last = lines.last();
        assert(closed_lines(init)) by {
            assert forall|i: int| 0 <= i < init.len() implies is_line(#[trigger] init[i])
                && init[i].last() == '\n' by {
                assert(init[i] == lines[i]);
            }
        }
        lemma_kept_closed(init, exists);
        assert(is_line(last)) by {
            assert(last == lines[lines.len() - 1]);
        }
        lemma_single_line(last);
        lemma_lines_concat(kept_lines(init, exists), last);
        assert(kept_list(init, exists) + seq![last] =~= kept_list(init, exists).push(last));
        assert(lines_of(kept_lines(lines, exists)) == kept_list(lines, exists));
    }
    lemma_kept_targets(lines, exists);
}

} // verus!
