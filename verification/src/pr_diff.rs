//! The changes of a pull request: how patches are read, and what a view of them
//! shows.
use crate::github::requests::{
    api_request, github_request, lemma_repository_url, make_repository_url, repository_url,
};
use crate::github::types::{
    GitHubPullRequest, GitHubPullRequestBranch, GitHubPullRequestFile, PullRequest,
    PullRequestBranch, PullRequestFile,
};
use crate::http_request::{validated_request, HttpRequest, Method};
use crate::models::told;
use crate::sorting::{
    lemma_one_order, lemma_stably_sorted, orders, stable_sort, stably_sorted, tied, ties, Sortable,
};
use crate::text::{
    begins, characters, clone_optional, decimal, is_blank, lines, lines_of, number_text, same_text,
    spell, starts_with, trimmed,
};
use vstd::prelude::*;
use vstd::string::*;

verus! {

/// What a line of a patch stands for.
pub enum PatchLine {
    /// The start of a hunk.
    Hunk,
    /// Something that says nothing about either text.
    Skipped,
    /// A line of both texts.
    Context(Seq<char>),
    /// A line of the old text.
    Removed(Seq<char>),
    /// A line of the new text.
    Added(Seq<char>),
    /// Something that belongs in no patch.
    Unsupported,
    /// Something whose first character takes more than one byte.
    Unsplittable,
}

/// What `line` stands for.
pub open spec fn patch_line(line: Seq<char>) -> PatchLine {
    if begins(line, "@@"@) {
        PatchLine::Hunk
    } else if begins(line, "\\ No newline at end of file"@) || begins(line, "diff --git "@)
        || begins(line, "--- "@) || begins(line, "+++ "@) || line.len() == 0 {
        PatchLine::Skipped
    } else if line[0] == ' ' {
        PatchLine::Context(line.skip(1))
    } else if line[0] == '-' {
        PatchLine::Removed(line.skip(1))
    } else if line[0] == '+' {
        PatchLine::Added(line.skip(1))
    } else if '\u{7f}' >= line[0] {
        PatchLine::Unsupported
    } else {
        PatchLine::Unsplittable
    }
}

/// The text that a line of a patch adds to the old text.
pub open spec fn old_share(line: Seq<char>) -> Seq<char> {
    match patch_line(line) {
        PatchLine::Context(text) => text.push('\n'),
        PatchLine::Removed(text) => text.push('\n'),
        _ => Seq::empty(),
    }
}

/// The text that a line of a patch adds to the new text.
pub open spec fn new_share(line: Seq<char>) -> Seq<char> {
    match patch_line(line) {
        PatchLine::Context(text) => text.push('\n'),
        PatchLine::Added(text) => text.push('\n'),
        _ => Seq::empty(),
    }
}

/// The old text of a patch.
pub open spec fn old_text_of(lines: Seq<Seq<char>>) -> Seq<char>
    decreases lines.len(),
{
    if lines.len() == 0 {
        Seq::empty()
    } else {
        old_text_of(lines.drop_last()) + old_share(lines.last())
    }
}

/// The new text of a patch.
pub open spec fn new_text_of(lines: Seq<Seq<char>>) -> Seq<char>
    decreases lines.len(),
{
    if lines.len() == 0 {
        Seq::empty()
    } else {
        new_text_of(lines.drop_last()) + new_share(lines.last())
    }
}

/// Whether some line starts a hunk.
pub open spec fn has_hunk(lines: Seq<Seq<char>>) -> bool {
    exists|i: int| 0 <= i < lines.len() && begins(#[trigger] lines[i], "@@"@)
}

/// Whether a line can be part of a patch.
pub open spec fn readable(line: Seq<char>) -> bool {
    !(patch_line(line) is Unsupported) && !(patch_line(line) is Unsplittable)
}

/// The first line that can be part of no patch.
pub open spec fn first_unreadable(lines: Seq<Seq<char>>) -> Option<Seq<char>>
    decreases lines.len(),
{
    if lines.len() == 0 {
        None
    } else if readable(lines[0]) {
        first_unreadable(lines.drop_first())
    } else {
        Some(lines[0])
    }
}

/// Whether the first line of `patch` that can be part of no patch, if there is
/// one, starts with a character of one byte.
pub open spec fn parseable(patch: Seq<char>) -> bool {
    first_unreadable(lines_of(patch)) matches Some(line) ==> patch_line(line) is Unsupported
}

/// The old and the new text of `patch`, or what is said of it.
pub open spec fn parsed_patch(patch: Seq<char>) -> Result<(Seq<char>, Seq<char>), Seq<char>> {
    let lines = lines_of(patch);
    match first_unreadable(lines) {
        Some(line) => Err("Unsupported GitHub patch line: "@ + line),
        None => if !has_hunk(lines) && trimmed(patch).len() > 0 {
            Err("GitHub patch did not contain a hunk"@)
        } else {
            Ok((old_text_of(lines), new_text_of(lines)))
        },
    }
}

/// Whether a patch can be parsed or refused.
pub fn can_parse_patch(patch: &str) -> (result: bool)
    ensures
        result == parseable(patch@),
{
    let all = lines(patch);
    let ghost models = all.deep_view();
    assert(models.skip(0) == models);
    for i in 0..all.len()
        invariant
            models == all.deep_view(),
            models == lines_of(patch@),
            first_unreadable(models) == first_unreadable(models.skip(i as int)),
    {
        assert(models.skip(i as int)[0] == all[i as int]@);
        assert(models.skip(i as int).drop_first() == models.skip(i + 1));
        let line = &all[i];
        let chars = characters(line);
        let skipped = starts_with(line, "@@") || starts_with(line, "\\ No newline at end of file")
            || starts_with(line, "diff --git ") || starts_with(line, "--- ") || starts_with(
            line,
            "+++ ",
        ) || chars.len() == 0;
        if !skipped && chars[0] != ' ' && chars[0] != '-' && chars[0] != '+' {
            return '\u{7f}' >= chars[0];
        }
    }
    true
}

/// The old and the new text of a patch. One is left out whose first line that
/// belongs in no patch starts with a character of more than one byte.
pub fn parse_unified_patch_text(patch: &str) -> (result: Result<(String, String), String>)
    requires
        parseable(patch@),
    ensures
        told(result) == parsed_patch(patch@),
        result matches Ok((old_text, new_text)) ==> {
            &&& old_text@ == Seq::new(
                lines_of(patch@).len(),
                |i: int|
                    if lines_of(patch@)[i].len() > 0 && (lines_of(patch@)[i][0] == ' ' || (lines_of(patch@)[i][0] == '-' && !begins(
                        lines_of(patch@)[i],
                        "--- "@,
                    ))) {
                        lines_of(patch@)[i].skip(1).push('\n')
                    } else {
                        Seq::<char>::empty()
                    },
            ).flatten()
            &&& new_text@ == Seq::new(
                lines_of(patch@).len(),
                |i: int|
                    if lines_of(patch@)[i].len() > 0 && (lines_of(patch@)[i][0] == ' ' || (lines_of(patch@)[i][0] == '+' && !begins(
                        lines_of(patch@)[i],
                        "+++ "@,
                    ))) {
                        lines_of(patch@)[i].skip(1).push('\n')
                    } else {
                        Seq::<char>::empty()
                    },
            ).flatten()
        },
        result is Ok <==> (forall|i: int|
            0 <= i < lines_of(patch@).len() ==> ({
                let line = #[trigger] lines_of(patch@)[i];
                (line.len() == 0 || line[0] == ' ' || line[0] == '-' || line[0] == '+' || begins(
                line,
                "@@"@,
            ) || begins(line, "\\ No newline at end of file"@) || begins(line, "diff --git "@))
            })) && (trimmed(patch@).len() == 0 || exists|i: int|
            0 <= i < lines_of(patch@).len() && begins(#[trigger] lines_of(patch@)[i], "@@"@)),
{
    proof {
        lemma_parsed_patch(patch@);
    }
    let mut old_text = String::new();
    let mut new_text = String::new();
    let mut saw_hunk = false;
    let all = lines(patch);
    let ghost models = all.deep_view();
    assert(models.skip(0) == models);
    for i in 0..all.len()
        invariant
            parseable(patch@),
            models == all.deep_view(),
            models == lines_of(patch@),
            first_unreadable(models) == first_unreadable(models.skip(i as int)),
            saw_hunk == has_hunk(models.take(i as int)),
            old_text@ == old_text_of(models.take(i as int)),
            new_text@ == new_text_of(models.take(i as int)),
    {
        let line = &all[i];
        proof {
            assert(models.skip(i as int)[0] == line@);
            assert(models.skip(i as int).drop_first() == models.skip(i + 1));
            assert(models.take(i + 1).drop_last() == models.take(i as int));
            assert(models.take(i + 1).last() == line@);
            assert(has_hunk(models.take(i + 1)) == (has_hunk(models.take(i as int)) || begins(
                line@,
                "@@"@,
            ))) by {
                if has_hunk(models.take(i as int)) {
                    let k = choose|k: int|
                        0 <= k < i && begins(#[trigger] models.take(i as int)[k], "@@"@);
                    assert(models.take(i + 1)[k] == models.take(i as int)[k]);
                }
                if begins(line@, "@@"@) {
                    assert(begins(models.take(i + 1)[i as int], "@@"@));
                }
                if has_hunk(models.take(i + 1)) && !begins(line@, "@@"@) {
                    let k = choose|k: int|
                        0 <= k < i + 1 && begins(#[trigger] models.take(i + 1)[k], "@@"@);
                    assert(models.take(i as int)[k] == models.take(i + 1)[k]);
                }
            }
        }
        let chars = characters(line);
        if starts_with(line, "@@") {
            saw_hunk = true;
        } else if starts_with(line, "\\ No newline at end of file") || starts_with(
            line,
            "diff --git ",
        ) || starts_with(line, "--- ") || starts_with(line, "+++ ") || chars.len() == 0 {
        } else {
            let text = spell(&chars, 1, chars.len());
            assert(text@ == line@.skip(1));
            if chars[0] == ' ' {
                let ghost old_before = old_text@;
                let ghost new_before = new_text@;
                old_text.append(&text);
                old_text.push('\n');
                new_text.append(&text);
                new_text.push('\n');
                assert(old_text@ == old_before + text@.push('\n'));
                assert(new_text@ == new_before + text@.push('\n'));
            } else if chars[0] == '-' {
                let ghost old_before = old_text@;
                old_text.append(&text);
                old_text.push('\n');
                assert(old_text@ == old_before + text@.push('\n'));
            } else if chars[0] == '+' {
                let ghost new_before = new_text@;
                new_text.append(&text);
                new_text.push('\n');
                assert(new_text@ == new_before + text@.push('\n'));
            } else {
                let mut message = "Unsupported GitHub patch line: ".to_owned();
                message.append(line);
                return Err(message);
            }
        }
    }
    assert(models.take(models.len() as int) == models);
    if !saw_hunk && !is_blank(patch) {
        return Err("GitHub patch did not contain a hunk".to_owned());
    }
    Ok((old_text, new_text))
}

/// The old text of a patch that has neither context nor removed lines is empty,
/// and so is the new text of one that has neither context nor added lines.
pub proof fn lemma_one_sided_patch(lines: Seq<Seq<char>>)
    ensures
        (forall|i: int|
            0 <= i < lines.len() ==> !(patch_line(#[trigger] lines[i]) is Context) && !(patch_line(
                lines[i],
            ) is Removed)) ==> old_text_of(lines) == Seq::<char>::empty(),
        (forall|i: int|
            0 <= i < lines.len() ==> !(patch_line(#[trigger] lines[i]) is Context) && !(patch_line(
                lines[i],
            ) is Added)) ==> new_text_of(lines) == Seq::<char>::empty(),
    decreases lines.len(),
{
    if lines.len() > 0 {
        let rest = lines.drop_last();
        lemma_one_sided_patch(rest);
        assert(forall|i: int| 0 <= i < rest.len() ==> rest[i] == #[trigger] lines[i]);
        if forall|i: int|
            0 <= i < lines.len() ==> !(patch_line(#[trigger] lines[i]) is Context) && !(patch_line(
                lines[i],
            ) is Removed) {
            assert forall|i: int| 0 <= i < rest.len() implies !(patch_line(#[trigger] rest[i])
                is Context) && !(patch_line(rest[i]) is Removed) by {
                assert(rest[i] == lines[i]);
            }
            assert(!(patch_line(lines[lines.len() - 1]) is Context));
        }
        if forall|i: int|
            0 <= i < lines.len() ==> !(patch_line(#[trigger] lines[i]) is Context) && !(patch_line(
                lines[i],
            ) is Added) {
            assert forall|i: int| 0 <= i < rest.len() implies !(patch_line(#[trigger] rest[i])
                is Context) && !(patch_line(rest[i]) is Added) by {
                assert(rest[i] == lines[i]);
            }
            assert(!(patch_line(lines[lines.len() - 1]) is Context));
        }
    }
}

/// The texts of a patch are those of its parts, one after the other.
pub proof fn lemma_patch_texts_join(first: Seq<Seq<char>>, second: Seq<Seq<char>>)
    ensures
        old_text_of(first + second) == old_text_of(first) + old_text_of(second),
        new_text_of(first + second) == new_text_of(first) + new_text_of(second),
    decreases second.len(),
{
    if second.len() == 0 {
        assert(first + second == first);
    } else {
        lemma_patch_texts_join(first, second.drop_last());
        assert((first + second).drop_last() == first + second.drop_last());
        assert(old_text_of(first) + old_text_of(second.drop_last()) + old_share(second.last())
            == old_text_of(first) + (old_text_of(second.drop_last()) + old_share(second.last())));
        assert(new_text_of(first) + new_text_of(second.drop_last()) + new_share(second.last())
            == new_text_of(first) + (new_text_of(second.drop_last()) + new_share(second.last())));
    }
}

/// A file of a pull request, with its old and its new text.
#[derive(Clone, Debug, PartialEq, Eq)]
pub struct ParsedGitHubPrDiffFile {
    pub filename: String,
    pub old_filename: String,
    pub status: String,
    pub additions: u32,
    pub deletions: u32,
    pub old_text: String,
    pub new_text: String,
    pub unsupported_reason: Option<String>,
    pub preview_note: Option<String>,
}

/// What a `ParsedGitHubPrDiffFile` holds.
#[verifier::ext_equal]
pub struct ParsedFile {
    pub filename: Seq<char>,
    pub old_filename: Seq<char>,
    pub status: Seq<char>,
    pub additions: u32,
    pub deletions: u32,
    pub old_text: Seq<char>,
    pub new_text: Seq<char>,
    pub unsupported_reason: Option<Seq<char>>,
    pub preview_note: Option<Seq<char>>,
}

impl DeepView for ParsedGitHubPrDiffFile {
    type V = ParsedFile;

    open spec fn deep_view(&self) -> ParsedFile {
        ParsedFile {
            filename: self.filename@,
            old_filename: self.old_filename@,
            status: self.status@,
            additions: self.additions,
            deletions: self.deletions,
            old_text: self.old_text@,
            new_text: self.new_text@,
            unsupported_reason: self.unsupported_reason.deep_view(),
            preview_note: self.preview_note.deep_view(),
        }
    }
}

/// What a file was called before.
pub open spec fn old_name(file: PullRequestFile) -> Seq<char> {
    match file.previous_filename {
        Some(name) => name,
        None => file.filename,
    }
}

/// What a file was called before.
fn find_old_name(file: &GitHubPullRequestFile) -> (result: String)
    ensures
        result@ == old_name(file.deep_view()),
        file.previous_filename matches Some(name) ==> result@ == name@,
        file.previous_filename is None ==> result@ == file.filename@,
{
    match &file.previous_filename {
        Some(name) => name.clone(),
        None => file.filename.clone(),
    }
}

/// `file` with the given texts.
pub open spec fn supported_file(
    file: PullRequestFile,
    old_text: Seq<char>,
    new_text: Seq<char>,
) -> ParsedFile {
    ParsedFile {
        filename: file.filename,
        old_filename: old_name(file),
        status: file.status,
        additions: file.additions,
        deletions: file.deletions,
        old_text,
        new_text,
        unsupported_reason: None,
        preview_note: None,
    }
}

/// `file` without texts, for the given reason.
pub open spec fn unsupported_file(file: PullRequestFile, reason: Seq<char>) -> ParsedFile {
    ParsedFile {
        unsupported_reason: Some(reason),
        ..supported_file(file, Seq::empty(), Seq::empty())
    }
}

/// `file` with the texts that its patch says.
pub open spec fn patched_file(file: PullRequestFile) -> ParsedFile {
    match file.patch {
        None => unsupported_file(file, "Binary file or diff too large to display"@),
        Some(patch) => match parsed_patch(patch) {
            Ok((old_text, new_text)) => supported_file(file, old_text, new_text),
            Err(reason) => unsupported_file(file, reason),
        },
    }
}

/// Whether a file has no patch or one that can be parsed or refused.
pub open spec fn parseable_file(file: PullRequestFile) -> bool {
    file.patch matches Some(patch) ==> parseable(patch)
}

/// The file with the given texts, or without and for the given reason.
fn make_parsed_file(
    file: &GitHubPullRequestFile,
    old_text: String,
    new_text: String,
    unsupported_reason: Option<String>,
) -> (result: ParsedGitHubPrDiffFile)
    ensures
        result.deep_view() == (ParsedFile {
            unsupported_reason: unsupported_reason.deep_view(),
            ..supported_file(file.deep_view(), old_text@, new_text@)
        }),
        result.filename@ == file.filename@,
        file.previous_filename matches Some(name) ==> result.old_filename@ == name@,
        file.previous_filename is None ==> result.old_filename@ == file.filename@,
        result.status@ == file.status@,
        result.additions == file.additions,
        result.deletions == file.deletions,
        result.old_text@ == old_text@,
        result.new_text@ == new_text@,
        result.unsupported_reason.deep_view() == unsupported_reason.deep_view(),
        result.preview_note is None,
{
    ParsedGitHubPrDiffFile {
        filename: file.filename.clone(),
        old_filename: find_old_name(file),
        status: file.status.clone(),
        additions: file.additions,
        deletions: file.deletions,
        old_text,
        new_text,
        unsupported_reason,
        preview_note: None,
    }
}

/// The file with the texts that its patch says.
pub fn parse_github_pr_diff_file(file: &GitHubPullRequestFile) -> (result: ParsedGitHubPrDiffFile)
    requires
        parseable_file(file.deep_view()),
    ensures
        result.deep_view() == patched_file(file.deep_view()),
        result.filename@ == file.filename@,
        file.previous_filename matches Some(name) ==> result.old_filename@ == name@,
        file.previous_filename is None ==> result.old_filename@ == file.filename@,
        result.status@ == file.status@,
        result.additions == file.additions,
        result.deletions == file.deletions,
        file.patch is None ==> {
            &&& result.old_text@.len() == 0
            &&& result.new_text@.len() == 0
            &&& result.unsupported_reason.deep_view() == Some(
                "Binary file or diff too large to display"@,
            )
        },
        file.patch matches Some(patch) ==> match parsed_patch(patch@) {
            Ok((old_text, new_text)) => {
                &&& result.old_text@ == old_text
                &&& result.new_text@ == new_text
                &&& result.unsupported_reason is None
            },
            Err(reason) => {
                &&& result.old_text@.len() == 0
                &&& result.new_text@.len() == 0
                &&& result.unsupported_reason.deep_view() == Some(reason)
            },
        },
        result.preview_note is None,
{
    match &file.patch {
        None => make_parsed_file(
            file,
            String::new(),
            String::new(),
            Some("Binary file or diff too large to display".to_owned()),
        ),
        Some(patch) => match parse_unified_patch_text(patch) {
            Ok((old_text, new_text)) => make_parsed_file(file, old_text, new_text, None),
            Err(reason) => make_parsed_file(file, String::new(), String::new(), Some(reason)),
        },
    }
}

/// The file as it was fetched, or else as its patch says, with a note where that
/// is all there is to show.
pub open spec fn resolved_file(
    file: PullRequestFile,
    fetched: Result<ParsedFile, Seq<char>>,
) -> ParsedFile {
    match fetched {
        Ok(parsed) => parsed,
        Err(_) => {
            let parsed = patched_file(file);
            if parsed.unsupported_reason is None {
                ParsedFile { preview_note: Some("Patch preview"@), ..parsed }
            } else {
                parsed
            }
        },
    }
}

/// The file as it was fetched, or else as its patch says, with a note where that
/// is all there is to show.
pub fn resolve_github_pr_diff_file(
    file: &GitHubPullRequestFile,
    fetched: Result<ParsedGitHubPrDiffFile, String>,
) -> (result: ParsedGitHubPrDiffFile)
    requires
        fetched is Err ==> parseable_file(file.deep_view()),
    ensures
        result.deep_view() == resolved_file(file.deep_view(), told(fetched)),
        fetched matches Ok(parsed) ==> result == parsed,
        fetched is Err ==> {
            &&& result.filename@ == file.filename@
            &&& result.old_filename@ == match file.previous_filename {
                Some(name) => name@,
                None => file.filename@,
            }
            &&& result.status@ == file.status@
            &&& result.additions == file.additions
            &&& result.deletions == file.deletions
            &&& result.unsupported_reason is None ==> result.preview_note.deep_view() == Some(
                "Patch preview"@,
            )
            &&& result.unsupported_reason is Some ==> result.preview_note is None
            &&& file.patch is None ==> result.unsupported_reason.deep_view() == Some(
                "Binary file or diff too large to display"@,
            )
            &&& file.patch matches Some(patch) ==> match parsed_patch(patch@) {
                Ok((old_text, new_text)) => result.old_text@ == old_text && result.new_text@
                    == new_text && result.unsupported_reason is None,
                Err(reason) => result.unsupported_reason.deep_view() == Some(reason),
            }
        },
{
    match fetched {
        Ok(parsed) => parsed,
        Err(_) => {
            let mut parsed = parse_github_pr_diff_file(file);
            if parsed.unsupported_reason.is_none() {
                parsed.preview_note = Some("Patch preview".to_owned());
            }
            parsed
        },
    }
}

/// The repository that a branch belongs to.
pub open spec fn repository_of(branch: PullRequestBranch, fallback: Seq<char>) -> Seq<char> {
    match branch.repo {
        Some(repo) => repo.full_name,
        None => fallback,
    }
}

/// The repository that a branch belongs to.
pub fn branch_repo_name(branch: &GitHubPullRequestBranch, fallback: &str) -> (result: String)
    ensures
        result@ == repository_of(branch.deep_view(), fallback@),
        branch.repo matches Some(repo) ==> result@ == repo.full_name@,
        branch.repo is None ==> result@ == fallback@,
{
    match &branch.repo {
        Some(repo) => repo.full_name.clone(),
        None => fallback.to_owned(),
    }
}

/// A file at a revision of a repository.
#[derive(Clone, Debug, PartialEq, Eq)]
pub struct FileRevision {
    pub repository: String,
    pub path: String,
    pub sha: String,
}

/// What a `FileRevision` holds.
#[verifier::ext_equal]
pub struct RevisionModel {
    pub repository: Seq<char>,
    pub path: Seq<char>,
    pub sha: Seq<char>,
}

impl DeepView for FileRevision {
    type V = RevisionModel;

    open spec fn deep_view(&self) -> RevisionModel {
        RevisionModel { repository: self.repository@, path: self.path@, sha: self.sha@ }
    }
}

/// The old revision of a file, unless there is none.
pub open spec fn old_revision(
    repository: Seq<char>,
    pull: PullRequest,
    file: PullRequestFile,
) -> Option<RevisionModel> {
    if file.status == "added"@ {
        None
    } else {
        Some(
            RevisionModel {
                repository: repository_of(pull.base, repository),
                path: old_name(file),
                sha: pull.base.sha,
            },
        )
    }
}

/// The new revision of a file, unless there is none.
pub open spec fn new_revision(
    repository: Seq<char>,
    pull: PullRequest,
    file: PullRequestFile,
) -> Option<RevisionModel> {
    if file.status == "removed"@ || file.status == "deleted"@ {
        None
    } else {
        Some(
            RevisionModel {
                repository: repository_of(pull.head, repository),
                path: file.filename,
                sha: pull.head.sha,
            },
        )
    }
}

/// The revisions of a file whose content is its old and its new text.
pub fn file_revisions(
    repo_name_with_owner: &str,
    pull: &GitHubPullRequest,
    file: &GitHubPullRequestFile,
) -> (result: (Option<FileRevision>, Option<FileRevision>))
    ensures
        result.0.deep_view() == old_revision(
            repo_name_with_owner@,
            pull.deep_view(),
            file.deep_view(),
        ),
        result.1.deep_view() == new_revision(
            repo_name_with_owner@,
            pull.deep_view(),
            file.deep_view(),
        ),
        result.0 is None <==> file.status@ == "added"@,
        result.0 matches Some(revision) ==> {
            &&& revision.sha@ == pull.base.sha@
            &&& revision.path@ == match file.previous_filename {
                Some(name) => name@,
                None => file.filename@,
            }
            &&& revision.repository@ == match pull.base.repo {
                Some(repo) => repo.full_name@,
                None => repo_name_with_owner@,
            }
        },
        result.1 is None <==> file.status@ == "removed"@ || file.status@ == "deleted"@,
        result.1 matches Some(revision) ==> {
            &&& revision.sha@ == pull.head.sha@
            &&& revision.path@ == file.filename@
            &&& revision.repository@ == match pull.head.repo {
                Some(repo) => repo.full_name@,
                None => repo_name_with_owner@,
            }
        },
{
    let old = if same_text(&file.status, "added") {
        None
    } else {
        Some(
            FileRevision {
                repository: branch_repo_name(&pull.base, repo_name_with_owner),
                path: find_old_name(file),
                sha: pull.base.sha.clone(),
            },
        )
    };
    let new = if same_text(&file.status, "removed") || same_text(&file.status, "deleted") {
        None
    } else {
        Some(
            FileRevision {
                repository: branch_repo_name(&pull.head, repo_name_with_owner),
                path: file.filename.clone(),
                sha: pull.head.sha.clone(),
            },
        )
    };
    (old, new)
}

/// What asks for the content of a file at a revision.
pub open spec fn content_path(revision: RevisionModel) -> Seq<char> {
    "/contents/"@ + revision.path + "?ref="@ + revision.sha
}

/// The request for the content of a file at a revision, or what is wrong with it.
pub fn file_content_request(revision: &FileRevision, token: Option<&str>) -> (result: Result<
    HttpRequest,
    String,
>)
    ensures
        told(result) == validated_request(
            api_request(
                repository_url(
                    revision.deep_view().repository,
                    content_path(revision.deep_view()),
                ),
                token.deep_view(),
            ),
        ),
        result matches Ok(request) ==> {
            &&& request.method == Method::Get
            &&& request.uri@ == "https://api.github.com/repos/"@ + revision.repository@
                + "/contents/"@ + revision.path@ + "?ref="@ + revision.sha@
        },
{
    proof {
        lemma_repository_url(
            revision.repository@,
            "/contents/"@ + revision.path@ + "?ref="@ + revision.sha@,
        );
        let head = "https://api.github.com/repos/"@ + revision.repository@;
        assert(head + ("/contents/"@ + revision.path@ + "?ref="@ + revision.sha@) == head
            + "/contents/"@ + revision.path@ + "?ref="@ + revision.sha@);
    }
    let mut rest = "/contents/".to_owned();
    rest.append(&revision.path);
    rest.append("?ref=");
    rest.append(&revision.sha);
    github_request(&make_repository_url(&revision.repository, &rest), token)
}

/// The text that was fetched, or nothing where nothing had to be fetched.
pub open spec fn fetched_text(fetched: Option<Result<Seq<char>, Seq<char>>>) -> Result<
    Seq<char>,
    Seq<char>,
> {
    match fetched {
        None => Ok(Seq::empty()),
        Some(text) => text,
    }
}

/// What was fetched, modelled.
pub open spec fn told_optionally(fetched: Option<Result<String, String>>) -> Option<
    Result<Seq<char>, Seq<char>>,
> {
    match fetched {
        None => None,
        Some(text) => Some(told(text)),
    }
}

/// `file` with the texts that were fetched, or what is said of the first that
/// was not.
pub open spec fn fetched_file(
    file: PullRequestFile,
    old: Result<Seq<char>, Seq<char>>,
    new: Result<Seq<char>, Seq<char>>,
) -> Result<ParsedFile, Seq<char>> {
    match (old, new) {
        (Err(problem), _) => Err(problem),
        (Ok(_), Err(problem)) => Err(problem),
        (Ok(old_text), Ok(new_text)) => Ok(supported_file(file, old_text, new_text)),
    }
}

/// The file with the texts of its revisions, from what was fetched of them: `old`
/// and `new` are `None` where there is no such revision.
pub fn resolve_github_pr_diff_file_content(
    file: &GitHubPullRequestFile,
    old: Option<Result<String, String>>,
    new: Option<Result<String, String>>,
) -> (result: Result<ParsedGitHubPrDiffFile, String>)
    ensures
        told(result) == fetched_file(
            file.deep_view(),
            fetched_text(told_optionally(old)),
            fetched_text(told_optionally(new)),
        ),
        result is Err <==> (old matches Some(Err(_))) || (new matches Some(Err(_))),
        old matches Some(Err(problem)) ==> result == Err::<ParsedGitHubPrDiffFile, _>(problem),
        !(old matches Some(Err(_))) ==> (new matches Some(Err(problem)) ==> result == Err::<
            ParsedGitHubPrDiffFile,
            _,
        >(problem)),
        result matches Ok(parsed) ==> {
            &&& parsed.old_text@ == match old {
                Some(Ok(text)) => text@,
                _ => Seq::<char>::empty(),
            }
            &&& parsed.new_text@ == match new {
                Some(Ok(text)) => text@,
                _ => Seq::<char>::empty(),
            }
            &&& parsed.filename@ == file.filename@
            &&& parsed.old_filename@ == match file.previous_filename {
                Some(name) => name@,
                None => file.filename@,
            }
            &&& parsed.status@ == file.status@
            &&& parsed.additions == file.additions
            &&& parsed.deletions == file.deletions
            &&& parsed.unsupported_reason is None
            &&& parsed.preview_note is None
        },
{
    let old_text = match old {
        None => String::new(),
        Some(Ok(text)) => text,
        Some(Err(problem)) => return Err(problem),
    };
    let new_text = match new {
        None => String::new(),
        Some(Ok(text)) => text,
        Some(Err(problem)) => return Err(problem),
    };
    Ok(make_parsed_file(file, old_text, new_text, None))
}

/// Where a file stands in a view: by its place in the pull request, then by its
/// path.
#[derive(Clone, Debug, PartialEq, Eq)]
pub struct PathKey {
    pub sort_prefix: u64,
    pub path: String,
}

/// What a `PathKey` holds.
#[verifier::ext_equal]
pub struct PathKeyModel {
    pub sort_prefix: u64,
    pub path: Seq<char>,
}

impl DeepView for PathKey {
    type V = PathKeyModel;

    open spec fn deep_view(&self) -> PathKeyModel {
        PathKeyModel { sort_prefix: self.sort_prefix, path: self.path@ }
    }
}

/// A file of a pull request as a view lists it.
#[derive(Clone, Debug, PartialEq, Eq)]
pub struct GitHubPrDiffFile {
    pub filename: String,
    pub old_filename: String,
    pub status: String,
    pub additions: u32,
    pub deletions: u32,
    pub path_key: PathKey,
    pub unsupported_reason: Option<String>,
    pub preview_note: Option<String>,
}

/// What a `GitHubPrDiffFile` holds.
#[verifier::ext_equal]
pub struct DiffFile {
    pub filename: Seq<char>,
    pub old_filename: Seq<char>,
    pub status: Seq<char>,
    pub additions: u32,
    pub deletions: u32,
    pub path_key: PathKeyModel,
    pub unsupported_reason: Option<Seq<char>>,
    pub preview_note: Option<Seq<char>>,
}

impl DeepView for GitHubPrDiffFile {
    type V = DiffFile;

    open spec fn deep_view(&self) -> DiffFile {
        DiffFile {
            filename: self.filename@,
            old_filename: self.old_filename@,
            status: self.status@,
            additions: self.additions,
            deletions: self.deletions,
            path_key: self.path_key.deep_view(),
            unsupported_reason: self.unsupported_reason.deep_view(),
            preview_note: self.preview_note.deep_view(),
        }
    }
}

/// A relative path, and its last part if it has parts.
#[derive(Clone, Debug, PartialEq, Eq)]
pub struct RelativePath {
    pub path: String,
    pub file_name: Option<String>,
}

/// What a `RelativePath` holds.
#[verifier::ext_equal]
pub struct PathModel {
    pub path: Seq<char>,
    pub file_name: Option<Seq<char>>,
}

impl DeepView for RelativePath {
    type V = PathModel;

    open spec fn deep_view(&self) -> PathModel {
        PathModel { path: self.path@, file_name: self.file_name.deep_view() }
    }
}

/// A file of a pull request with its place in it, and the relative path that its
/// name spells or what is said of a name that spells none.
pub struct ResolvedFile {
    pub index: usize,
    pub parsed: ParsedGitHubPrDiffFile,
    pub path: Result<RelativePath, String>,
}

/// What a `ResolvedFile` holds.
#[verifier::ext_equal]
pub struct ResolvedModel {
    pub index: usize,
    pub parsed: ParsedFile,
    pub path: Result<PathModel, Seq<char>>,
}

impl DeepView for ResolvedFile {
    type V = ResolvedModel;

    open spec fn deep_view(&self) -> ResolvedModel {
        ResolvedModel {
            index: self.index,
            parsed: self.parsed.deep_view(),
            path: told(self.path),
        }
    }
}

impl Sortable for ResolvedFile {
    open spec fn order() -> spec_fn(ResolvedModel, ResolvedModel) -> bool {
        |a: ResolvedModel, b: ResolvedModel| a.index < b.index
    }

    fn goes_before(&self, other: &Self) -> (result: bool) {
        self.index < other.index
    }
}

/// A file whose changes a view shows.
#[derive(Clone, Debug, PartialEq, Eq)]
pub struct GitHubPrDiffEntry {
    pub file: GitHubPrDiffFile,
    pub path: String,
    pub display_name: String,
    pub is_removed: bool,
    pub old_text: String,
    pub new_text: String,
}

/// What a `GitHubPrDiffEntry` holds.
#[verifier::ext_equal]
pub struct DiffEntry {
    pub file: DiffFile,
    pub path: Seq<char>,
    pub display_name: Seq<char>,
    pub is_removed: bool,
    pub old_text: Seq<char>,
    pub new_text: Seq<char>,
}

impl DeepView for GitHubPrDiffEntry {
    type V = DiffEntry;

    open spec fn deep_view(&self) -> DiffEntry {
        DiffEntry {
            file: self.file.deep_view(),
            path: self.path@,
            display_name: self.display_name@,
            is_removed: self.is_removed,
            old_text: self.old_text@,
            new_text: self.new_text@,
        }
    }
}

/// How a file is listed, whose relative path is `path`.
pub open spec fn listed_file(resolved: ResolvedModel, path: PathModel) -> DiffFile {
    DiffFile {
        filename: resolved.parsed.filename,
        old_filename: resolved.parsed.old_filename,
        status: resolved.parsed.status,
        additions: resolved.parsed.additions,
        deletions: resolved.parsed.deletions,
        path_key: PathKeyModel { sort_prefix: resolved.index as u64, path: path.path },
        unsupported_reason: resolved.parsed.unsupported_reason,
        preview_note: resolved.parsed.preview_note,
    }
}

/// How the changes of a file are shown, whose relative path is `path`.
pub open spec fn shown_entry(resolved: ResolvedModel, path: PathModel) -> DiffEntry {
    DiffEntry {
        file: listed_file(resolved, path),
        path: path.path,
        display_name: match path.file_name {
            Some(name) => name,
            None => resolved.parsed.filename,
        },
        is_removed: resolved.parsed.status == "removed"@,
        old_text: resolved.parsed.old_text,
        new_text: resolved.parsed.new_text,
    }
}

/// What is listed and what is shown of `files`, in their order, or what is said
/// of the first whose name spells no path.
pub open spec fn planned(files: Seq<ResolvedModel>) -> Result<
    (Seq<DiffFile>, Seq<DiffEntry>),
    Seq<char>,
>
    decreases files.len(),
{
    if files.len() == 0 {
        Ok((Seq::empty(), Seq::empty()))
    } else {
        let resolved = files.last();
        match planned(files.drop_last()) {
            Err(problem) => Err(problem),
            Ok((listed, shown)) => match resolved.path {
                Err(problem) => Err(problem),
                Ok(path) => Ok(
                    (
                        listed.push(listed_file(resolved, path)),
                        if resolved.parsed.unsupported_reason is None {
                            shown.push(shown_entry(resolved, path))
                        } else {
                            shown
                        },
                    ),
                ),
            },
        }
    }
}

/// `files` in the order of the pull request.
pub open spec fn in_pull_order(files: Seq<ResolvedModel>) -> Seq<ResolvedModel> {
    stably_sorted(files, |a: ResolvedModel, b: ResolvedModel| a.index < b.index)
}

/// What is said of the first files is said of all of them.
proof fn lemma_first_without_path(files: Seq<ResolvedModel>, n: int)
    requires
        0 <= n <= files.len(),
        planned(files.take(n)) is Err,
    ensures
        planned(files) == planned(files.take(n)),
    decreases files.len(),
{
    if n == files.len() {
        assert(files.take(n) == files);
    } else {
        assert(files.drop_last().take(n) == files.take(n));
        lemma_first_without_path(files.drop_last(), n);
    }
}

/// What is listed and what is shown of files that were resolved in any order.
pub fn plan_diff(files: Vec<ResolvedFile>) -> (result: Result<
    (Vec<GitHubPrDiffFile>, Vec<GitHubPrDiffEntry>),
    String,
>)
    ensures
        told(result) == planned(in_pull_order(files.deep_view())),
{
    let sorted = stable_sort(files);
    let ghost models = sorted.deep_view();
    let mut listed: Vec<GitHubPrDiffFile> = Vec::new();
    let mut shown: Vec<GitHubPrDiffEntry> = Vec::new();
    assert(listed.deep_view() == Seq::<DiffFile>::empty());
    assert(shown.deep_view() == Seq::<DiffEntry>::empty());
    assert(models.take(0) == Seq::<ResolvedModel>::empty());
    for i in 0..sorted.len()
        invariant
            models == sorted.deep_view(),
            models == in_pull_order(files.deep_view()),
            planned(models.take(i as int)) == Ok::<_, Seq<char>>(
                (listed.deep_view(), shown.deep_view()),
            ),
    {
        let resolved = &sorted[i];
        let ghost listed_before = listed.deep_view();
        let ghost shown_before = shown.deep_view();
        proof {
            assert(models.take(i + 1).drop_last() == models.take(i as int));
            assert(models.take(i + 1).last() == resolved.deep_view());
        }
        let path = match &resolved.path {
            Ok(path) => path,
            Err(problem) => {
                proof {
                    lemma_first_without_path(models, i + 1);
                }
                return Err(problem.clone());
            },
        };
        listed.push(make_listed_file(resolved, path));
        assert(listed.deep_view() == listed_before.push(
            listed_file(resolved.deep_view(), path.deep_view()),
        ));
        if resolved.parsed.unsupported_reason.is_none() {
            shown.push(make_shown_entry(resolved, path));
            assert(shown.deep_view() == shown_before.push(
                shown_entry(resolved.deep_view(), path.deep_view()),
            ));
        }
    }
    assert(models.take(models.len() as int) == models);
    Ok((listed, shown))
}

/// How a file is listed, whose relative path is `path`.
fn make_listed_file(resolved: &ResolvedFile, path: &RelativePath) -> (result: GitHubPrDiffFile)
    ensures
        result.deep_view() == listed_file(resolved.deep_view(), path.deep_view()),
        result.filename@ == resolved.parsed.filename@,
        result.old_filename@ == resolved.parsed.old_filename@,
        result.status@ == resolved.parsed.status@,
        result.additions == resolved.parsed.additions,
        result.deletions == resolved.parsed.deletions,
        result.path_key.sort_prefix == resolved.index as u64,
        result.path_key.path@ == path.path@,
        result.unsupported_reason.deep_view() == resolved.parsed.unsupported_reason.deep_view(),
        result.preview_note.deep_view() == resolved.parsed.preview_note.deep_view(),
{
    GitHubPrDiffFile {
        filename: resolved.parsed.filename.clone(),
        old_filename: resolved.parsed.old_filename.clone(),
        status: resolved.parsed.status.clone(),
        additions: resolved.parsed.additions,
        deletions: resolved.parsed.deletions,
        path_key: path_key_for_file(resolved.index, path),
        unsupported_reason: clone_optional(&resolved.parsed.unsupported_reason),
        preview_note: clone_optional(&resolved.parsed.preview_note),
    }
}

/// How the changes of a file are shown, whose relative path is `path`.
fn make_shown_entry(resolved: &ResolvedFile, path: &RelativePath) -> (result: GitHubPrDiffEntry)
    ensures
        result.deep_view() == shown_entry(resolved.deep_view(), path.deep_view()),
        result.file.deep_view() == listed_file(resolved.deep_view(), path.deep_view()),
        result.path@ == path.path@,
        result.display_name@ == match path.file_name {
            Some(name) => name@,
            None => resolved.parsed.filename@,
        },
        result.is_removed <==> resolved.parsed.status@ == "removed"@,
        result.old_text@ == resolved.parsed.old_text@,
        result.new_text@ == resolved.parsed.new_text@,
{
    GitHubPrDiffEntry {
        file: make_listed_file(resolved, path),
        path: path.path.clone(),
        display_name: match &path.file_name {
            Some(name) => name.clone(),
            None => resolved.parsed.filename.clone(),
        },
        is_removed: same_text(&resolved.parsed.status, "removed"),
        old_text: resolved.parsed.old_text.clone(),
        new_text: resolved.parsed.new_text.clone(),
    }
}

/// Where a file stands in a view.
pub fn path_key_for_file(index: usize, path: &RelativePath) -> (result: PathKey)
    ensures
        result.deep_view() == (PathKeyModel { sort_prefix: index as u64, path: path.path@ }),
{
    PathKey { sort_prefix: index as u64, path: path.path.clone() }
}

/// Every file that is shown is one that is listed, and every file that is listed
/// has a text to show or a reason why not.
pub proof fn lemma_planned(files: Seq<ResolvedModel>)
    ensures
        planned(files) is Ok <==> forall|i: int|
            0 <= i < files.len() ==> (#[trigger] files[i]).path is Ok,
        planned(files) matches Ok((listed, shown)) ==> {
            &&& listed.len() == files.len()
            &&& shown.len() <= listed.len()
            &&& forall|i: int|
                0 <= i < files.len() ==> #[trigger] listed[i] == listed_file(
                    files[i],
                    files[i].path->Ok_0,
                )
            &&& forall|k: int|
                0 <= k < shown.len() ==> listed.contains((#[trigger] shown[k]).file)
                    && shown[k].file.unsupported_reason is None
        },
    decreases files.len(),
{
    if files.len() > 0 {
        let rest = files.drop_last();
        lemma_planned(rest);
        assert(forall|i: int| 0 <= i < rest.len() ==> rest[i] == #[trigger] files[i]);
        if forall|i: int| 0 <= i < files.len() ==> (#[trigger] files[i]).path is Ok {
            assert forall|i: int| 0 <= i < rest.len() implies (#[trigger] rest[i]).path is Ok by {
                assert(files[i].path is Ok);
            }
            assert(files[files.len() - 1].path is Ok);
        }
        if planned(files) is Ok {
            let (listed, shown) = planned(files)->Ok_0;
            let (listed_before, shown_before) = planned(rest)->Ok_0;
            assert forall|i: int| 0 <= i < files.len() implies (#[trigger] files[i]).path is Ok by {
                if i < rest.len() {
                    assert(rest[i].path is Ok);
                }
            }
            assert forall|i: int| 0 <= i < files.len() implies #[trigger] listed[i] == listed_file(
                files[i],
                files[i].path->Ok_0,
            ) by {
                if i < rest.len() {
                    assert(listed_before[i] == listed[i]);
                }
            }
            assert forall|k: int| 0 <= k < shown.len() implies listed.contains(
                (#[trigger] shown[k]).file,
            ) && shown[k].file.unsupported_reason is None by {
                if k < shown_before.len() {
                    assert(listed_before.contains(shown_before[k].file));
                    let i = choose|i: int|
                        0 <= i < listed_before.len() && listed_before[i] == shown_before[k].file;
                    assert(listed[i] == shown[k].file);
                } else {
                    assert(listed[listed.len() - 1] == shown[k].file);
                }
            }
        }
    }
}

/// In whatever order the files of a pull request were resolved, the same is listed
/// and shown of them.
pub proof fn lemma_order_of_resolution(a: Seq<ResolvedModel>, b: Seq<ResolvedModel>)
    requires
        a.to_multiset() == b.to_multiset(),
        forall|i: int, j: int|
            0 <= i < j < a.len() ==> (#[trigger] a[i]).index != (#[trigger] a[j]).index,
    ensures
        in_pull_order(a) == in_pull_order(b),
        planned(in_pull_order(a)) == planned(in_pull_order(b)),
{
    let before = |a: ResolvedModel, b: ResolvedModel| a.index < b.index;
    assert(orders(before));
    lemma_stably_sorted(a, before);
    lemma_stably_sorted(b, before);
    let sorted = in_pull_order(a);
    assert forall|i: int, j: int| 0 <= i < j < sorted.len() implies !tied(
        #[trigger] sorted[i],
        #[trigger] sorted[j],
        before,
    ) by {
        if sorted[i].index == sorted[j].index {
            let x = sorted[i];
            assert(ties(sorted, x, before) == ties(a, x, before));
            lemma_at_most_one(a, x);
            lemma_two_ties(sorted, i, j);
        }
    }
    lemma_one_order(in_pull_order(a), in_pull_order(b), before);
}

/// Of files with different places at most one has the place of `x`.
proof fn lemma_at_most_one(files: Seq<ResolvedModel>, x: ResolvedModel)
    requires
        forall|i: int, j: int|
            0 <= i < j < files.len() ==> (#[trigger] files[i]).index != (#[trigger] files[j]).index,
    ensures
        ties(files, x, |a: ResolvedModel, b: ResolvedModel| a.index < b.index).len() <= 1,
        (forall|i: int| 0 <= i < files.len() ==> (#[trigger] files[i]).index != x.index) ==> ties(
            files,
            x,
            |a: ResolvedModel, b: ResolvedModel| a.index < b.index,
        ).len() == 0,
    decreases files.len(),
{
    reveal(Seq::filter);
    if files.len() > 0 {
        let rest = files.drop_last();
        assert forall|i: int, j: int| 0 <= i < j < rest.len() implies (#[trigger] rest[i]).index
            != (#[trigger] rest[j]).index by {
            assert(files[i].index != files[j].index);
        }
        lemma_at_most_one(rest, x);
        if files.last().index == x.index {
            assert forall|i: int| 0 <= i < rest.len() implies (#[trigger] rest[i]).index
                != x.index by {
                assert(files[i].index != files[files.len() - 1].index);
            }
        }
        if forall|i: int| 0 <= i < files.len() ==> (#[trigger] files[i]).index != x.index {
            assert forall|i: int| 0 <= i < rest.len() implies (#[trigger] rest[i]).index
                != x.index by {
                assert(files[i].index != x.index);
            }
            assert(files[files.len() - 1].index != x.index);
        }
    }
}

/// Two files with one place tie with the first of them.
proof fn lemma_two_ties(files: Seq<ResolvedModel>, i: int, j: int)
    requires
        0 <= i < j < files.len(),
        files[i].index == files[j].index,
    ensures
        ties(files, files[i], |a: ResolvedModel, b: ResolvedModel| a.index < b.index).len() >= 2,
    decreases files.len(),
{
    let before = |a: ResolvedModel, b: ResolvedModel| a.index < b.index;
    let rest = files.drop_last();
    reveal(Seq::filter);
    if j < files.len() - 1 {
        lemma_two_ties(rest, i, j);
    } else {
        lemma_a_tie(rest, i);
    }
}

/// A file ties with itself.
proof fn lemma_a_tie(files: Seq<ResolvedModel>, i: int)
    requires
        0 <= i < files.len(),
    ensures
        ties(files, files[i], |a: ResolvedModel, b: ResolvedModel| a.index < b.index).len() >= 1,
    decreases files.len(),
{
    reveal(Seq::filter);
    if i < files.len() - 1 {
        lemma_a_tie(files.drop_last(), i);
    }
}

/// How many lines `files` add.
pub open spec fn total_additions(files: Seq<DiffFile>) -> nat
    decreases files.len(),
{
    if files.len() == 0 {
        0
    } else {
        total_additions(files.drop_last()) + files.last().additions as nat
    }
}

/// How many lines `files` delete.
pub open spec fn total_deletions(files: Seq<DiffFile>) -> nat
    decreases files.len(),
{
    if files.len() == 0 {
        0
    } else {
        total_deletions(files.drop_last()) + files.last().deletions as nat
    }
}

/// Some files add and delete no more than all.
proof fn lemma_totals_grow(files: Seq<DiffFile>, n: int)
    requires
        0 <= n <= files.len(),
    ensures
        total_additions(files.take(n)) <= total_additions(files),
        total_deletions(files.take(n)) <= total_deletions(files),
    decreases files.len(),
{
    if n == files.len() {
        assert(files.take(n) == files);
    } else {
        assert(files.drop_last().take(n) == files.take(n));
        lemma_totals_grow(files.drop_last(), n);
    }
}

/// How many files there are, and how many lines they add and delete.
pub fn github_pr_diff_totals(files: &Vec<GitHubPrDiffFile>) -> (result: (usize, usize, usize))
    requires
        total_additions(files.deep_view()) <= usize::MAX,
        total_deletions(files.deep_view()) <= usize::MAX,
    ensures
        result.0 == files@.len(),
        result.1 == total_additions(files.deep_view()),
        result.2 == total_deletions(files.deep_view()),
{
    let ghost models = files.deep_view();
    let mut additions: usize = 0;
    let mut deletions: usize = 0;
    for i in 0..files.len()
        invariant
            models == files.deep_view(),
            total_additions(models) <= usize::MAX,
            total_deletions(models) <= usize::MAX,
            additions == total_additions(models.take(i as int)),
            deletions == total_deletions(models.take(i as int)),
    {
        proof {
            assert(models.take(i + 1).drop_last() == models.take(i as int));
            assert(models.take(i + 1).last() == files[i as int].deep_view());
            lemma_totals_grow(models, i + 1);
        }
        additions += files[i].additions as usize;
        deletions += files[i].deletions as usize;
    }
    assert(models.take(models.len() as int) == models);
    (files.len(), additions, deletions)
}

/// What a view of a pull request's changes holds.
#[derive(Clone, Debug, PartialEq, Eq)]
pub struct GitHubPrDiffView {
    pub repo_name_with_owner: String,
    pub pull_number: u64,
    pub title: String,
    pub files: Vec<GitHubPrDiffFile>,
}

/// What the header of a view says.
#[derive(Clone, Debug, PartialEq, Eq)]
pub struct DiffHeader {
    pub number: String,
    pub title: String,
    pub repository: String,
    pub file_count: String,
    pub additions: String,
    pub deletions: String,
}

impl GitHubPrDiffView {
    /// A view of the changes of a pull request.
    pub fn new(
        repo_name_with_owner: String,
        pull_number: u64,
        title: String,
        files: Vec<GitHubPrDiffFile>,
    ) -> (result: Self)
        ensures
            result == (GitHubPrDiffView { repo_name_with_owner, pull_number, title, files }),
    {
        GitHubPrDiffView { repo_name_with_owner, pull_number, title, files }
    }

    /// Shows the changes of another pull request.
    pub fn rebuild(
        &mut self,
        repo_name_with_owner: String,
        pull_number: u64,
        title: String,
        files: Vec<GitHubPrDiffFile>,
    )
        ensures
            *final(self) == (GitHubPrDiffView { repo_name_with_owner, pull_number, title, files }),
    {
        self.repo_name_with_owner = repo_name_with_owner;
        self.pull_number = pull_number;
        self.title = title;
        self.files = files;
    }

    /// Whether the view shows the changes of the given pull request.
    pub fn shows(&self, repo_name_with_owner: &str, pull_number: u64) -> (result: bool)
        ensures
            result == (self.repo_name_with_owner@ == repo_name_with_owner@ && self.pull_number
                == pull_number),
    {
        self.pull_number == pull_number && same_text(
            &self.repo_name_with_owner,
            repo_name_with_owner,
        )
    }

    /// What the view's tab is called.
    pub fn title(&self) -> (result: String)
        ensures
            result@ == "#"@ + decimal(self.pull_number as nat) + " Changes"@,
    {
        let mut result = "#".to_owned();
        result.append(&number_text(self.pull_number));
        result.append(" Changes");
        result
    }

    /// What is said of the view where its tab is pointed at.
    pub fn tab_tooltip_text(&self) -> (result: String)
        ensures
            result@ == self.repo_name_with_owner@ + " #"@ + decimal(self.pull_number as nat),
    {
        let mut result = self.repo_name_with_owner.clone();
        result.append(" #");
        result.append(&number_text(self.pull_number));
        result
    }

    /// What the header says.
    pub fn render_header(&self) -> (result: DiffHeader)
        requires
            total_additions(self.files.deep_view()) <= usize::MAX,
            total_deletions(self.files.deep_view()) <= usize::MAX,
        ensures
            result.number@ == "#"@ + decimal(self.pull_number as nat),
            result.title@ == self.title@,
            result.repository@ == self.repo_name_with_owner@,
            result.file_count@ == decimal(self.files@.len()) + " files"@,
            result.additions@ == "+"@ + decimal(total_additions(self.files.deep_view())),
            result.deletions@ == "-"@ + decimal(total_deletions(self.files.deep_view())),
    {
        let (files, added, deleted) = github_pr_diff_totals(&self.files);
        let mut number = "#".to_owned();
        number.append(&number_text(self.pull_number));
        let mut file_count = number_text(files as u64);
        file_count.append(" files");
        let mut additions = "+".to_owned();
        additions.append(&number_text(added as u64));
        let mut deletions = "-".to_owned();
        deletions.append(&number_text(deleted as u64));
        DiffHeader {
            number,
            title: self.title.clone(),
            repository: self.repo_name_with_owner.clone(),
            file_count,
            additions,
            deletions,
        }
    }
}

/// Whether a view is of the given pull request.
pub open spec fn is_view_of(
    view: GitHubPrDiffView,
    repo_name_with_owner: Seq<char>,
    pull_number: u64,
) -> bool {
    view.repo_name_with_owner@ == repo_name_with_owner && view.pull_number == pull_number
}

/// Whether the `i`-th of the views is the first of the given pull request, or a new
/// one after the others if none is.
pub open spec fn is_place_of(
    views: Seq<GitHubPrDiffView>,
    i: int,
    repo_name_with_owner: Seq<char>,
    pull_number: u64,
) -> bool {
    &&& 0 <= i <= views.len()
    &&& i < views.len() ==> is_view_of(views[i], repo_name_with_owner, pull_number)
    &&& forall|j: int|
        0 <= j < i ==> !is_view_of(#[trigger] views[j], repo_name_with_owner, pull_number)
}

/// The first of `views` that shows the changes of the given pull request.
pub fn existing_view(
    views: &Vec<GitHubPrDiffView>,
    repo_name_with_owner: &str,
    pull_number: u64,
) -> (result: Option<usize>)
    ensures
        match result {
            Some(i) => i < views@.len() && is_place_of(
                views@,
                i as int,
                repo_name_with_owner@,
                pull_number,
            ),
            None => is_place_of(
                views@,
                views@.len() as int,
                repo_name_with_owner@,
                pull_number,
            ),
        },
        result matches Some(i) ==> {
            &&& i < views@.len()
            &&& views@[i as int].repo_name_with_owner@ == repo_name_with_owner@
            &&& views@[i as int].pull_number == pull_number
        },
        forall|j: int|
            0 <= j < views@.len() && (result matches Some(i) ==> j < i) ==> !((
            #[trigger] views@[j]).repo_name_with_owner@ == repo_name_with_owner@
                && views@[j].pull_number == pull_number),
{
    for i in 0..views.len()
        invariant
            forall|j: int|
                0 <= j < i ==> !is_view_of(
                    #[trigger] views@[j],
                    repo_name_with_owner@,
                    pull_number,
                ),
    {
        if views[i].shows(repo_name_with_owner, pull_number) {
            return Some(i);
        }
    }
    None
}

/// What building a view leads to: which of the open views shows the changes, and
/// what it shows of them.
#[derive(Clone, Debug, PartialEq, Eq)]
pub struct BuiltDiff {
    pub view: usize,
    pub entries: Vec<GitHubPrDiffEntry>,
}

/// Whether the `i`-th of the views has come to show the given pull request and
/// `listed` of its files, and nothing else has changed from `before` to `after`.
pub open spec fn shows_in_place(
    before: Seq<GitHubPrDiffView>,
    after: Seq<GitHubPrDiffView>,
    i: int,
    repo_name_with_owner: Seq<char>,
    pull: PullRequest,
    listed: Seq<DiffFile>,
) -> bool {
    &&& after.len() == if i < before.len() {
        before.len()
    } else {
        before.len() + 1
    }
    &&& forall|j: int| 0 <= j < before.len() && j != i ==> #[trigger] after[j] == before[j]
    &&& is_view_of(after[i], repo_name_with_owner, pull.number)
    &&& after[i].title@ == pull.title
    &&& after[i].files.deep_view() == listed
}

impl GitHubPrDiffView {
    /// Shows the changes of a pull request in the view that is open for it, or else
    /// in a new one.
    pub fn build(
        views: &mut Vec<GitHubPrDiffView>,
        repo_name_with_owner: String,
        pull: &GitHubPullRequest,
        files: Vec<ResolvedFile>,
        has_worktree: bool,
    ) -> (result: Result<BuiltDiff, String>)
        ensures
            !has_worktree ==> (result matches Err(message) && message@
                == "project has no worktrees"@),
            has_worktree ==> match planned(in_pull_order(files.deep_view())) {
                Err(problem) => result matches Err(message) && message@ == problem,
                Ok((listed, shown)) => result matches Ok(built) && {
                    &&& built.entries.deep_view() == shown
                    &&& is_place_of(
                        old(views)@,
                        built.view as int,
                        repo_name_with_owner@,
                        pull.number,
                    )
                    &&& shows_in_place(
                        old(views)@,
                        final(views)@,
                        built.view as int,
                        repo_name_with_owner@,
                        pull.deep_view(),
                        listed,
                    )
                },
            },
            result is Err ==> final(views)@ == old(views)@,
            result matches Ok(built) ==> {
                &&& built.view < final(views)@.len()
                &&& final(views)@[built.view as int].repo_name_with_owner@ == repo_name_with_owner@
                &&& final(views)@[built.view as int].pull_number == pull.number
                &&& final(views)@[built.view as int].title@ == pull.title@
                &&& built.view <= old(views)@.len()
                &&& final(views)@.len() == if built.view < old(views)@.len() {
                    old(views)@.len()
                } else {
                    old(views)@.len() + 1
                }
                &&& forall|j: int|
                    0 <= j < old(views)@.len() && j != built.view ==> #[trigger] final(views)@[j]
                        == old(views)@[j]
                &&& built.view < old(views)@.len() ==> old(views)@[built.view as int].pull_number
                    == pull.number && old(views)@[built.view as int].repo_name_with_owner@
                    == repo_name_with_owner@
                &&& forall|j: int|
                    0 <= j < built.view ==> !((#[trigger] old(views)@[j]).repo_name_with_owner@
                        == repo_name_with_owner@ && old(views)@[j].pull_number == pull.number)
            },
    {
        if !has_worktree {
            return Err("project has no worktrees".to_owned());
        }
        let (listed, entries) = match plan_diff(files) {
            Ok(planned) => planned,
            Err(problem) => return Err(problem),
        };
        let title = pull.title.clone();
        let view = match existing_view(views, &repo_name_with_owner, pull.number) {
            Some(i) => {
                views[i].rebuild(repo_name_with_owner, pull.number, title, listed);
                i
            },
            None => {
                let i = views.len();
                views.push(Self::new(repo_name_with_owner, pull.number, title, listed));
                i
            },
        };
        Ok(BuiltDiff { view, entries })
    }
}

/// A line that starts with a space adds the rest of it to both texts, whatever the rest
/// is. One that starts with a minus sign, and not with "--- ", adds the rest to the old
/// text only; one that starts with a plus sign, and not with "+++ ", to the new text
/// only. No other line adds anything.
pub proof fn lemma_line_shares(line: Seq<char>)
    ensures
        old_share(line) == if line.len() > 0 && (line[0] == ' ' || (line[0] == '-' && !begins(
            line,
            "--- "@,
        ))) {
            line.skip(1).push('\n')
        } else {
            Seq::<char>::empty()
        },
        new_share(line) == if line.len() > 0 && (line[0] == ' ' || (line[0] == '+' && !begins(
            line,
            "+++ "@,
        ))) {
            line.skip(1).push('\n')
        } else {
            Seq::<char>::empty()
        },
        readable(line) <==> (line.len() == 0 || line[0] == ' ' || line[0] == '-' || line[0] == '+' || begins(
                line,
                "@@"@,
            ) || begins(line, "\\ No newline at end of file"@) || begins(line, "diff --git "@)),
        patch_line(line) is Unsupported ==> line.len() > 0 && line[0] as int <= 0x7f,
        patch_line(line) is Unsplittable ==> line.len() > 0 && line[0] as int > 0x7f,
{
    reveal_strlit("@@");
    reveal_strlit("\\ No newline at end of file");
    reveal_strlit("diff --git ");
    reveal_strlit("--- ");
    reveal_strlit("+++ ");
    if begins(line, "@@"@) {
        assert(line.take("@@"@.len() as int)[0] == '@');
    }
    if begins(line, "\\ No newline at end of file"@) {
        assert(line.take("\\ No newline at end of file"@.len() as int)[0] == '\\');
    }
    if begins(line, "diff --git "@) {
        assert(line.take("diff --git "@.len() as int)[0] == 'd');
    }
    if begins(line, "--- "@) {
        assert(line.take("--- "@.len() as int)[0] == '-');
    }
    if begins(line, "+++ "@) {
        assert(line.take("+++ "@.len() as int)[0] == '+');
    }
}

/// The texts of a patch are what its lines add, one line after the other.
proof fn lemma_texts_flatten(lines: Seq<Seq<char>>)
    ensures
        old_text_of(lines) == Seq::new(lines.len(), |i: int| old_share(lines[i])).flatten(),
        new_text_of(lines) == Seq::new(lines.len(), |i: int| new_share(lines[i])).flatten(),
    decreases lines.len(),
{
    let olds = Seq::new(lines.len(), |i: int| old_share(lines[i]));
    let news = Seq::new(lines.len(), |i: int| new_share(lines[i]));
    if lines.len() == 0 {
        assert(olds.flatten() == Seq::<char>::empty());
        assert(news.flatten() == Seq::<char>::empty());
    } else {
        let rest = lines.drop_last();
        lemma_texts_flatten(rest);
        assert(olds.drop_last() == Seq::new(rest.len(), |i: int| old_share(rest[i])));
        assert(news.drop_last() == Seq::new(rest.len(), |i: int| new_share(rest[i])));
        olds.lemma_flatten_and_flatten_alt_are_equivalent();
        news.lemma_flatten_and_flatten_alt_are_equivalent();
        olds.drop_last().lemma_flatten_and_flatten_alt_are_equivalent();
        news.drop_last().lemma_flatten_and_flatten_alt_are_equivalent();
    }
}

/// The first line that can be part of no patch is one of the lines, and all before it
/// can be part of one.
pub proof fn lemma_first_unreadable(lines: Seq<Seq<char>>)
    ensures
        match first_unreadable(lines) {
            Some(line) => exists|i: int|
                0 <= i < lines.len() && #[trigger] lines[i] == line && !readable(line) && (forall|
                    j: int,
                |
                    0 <= j < i ==> readable(#[trigger] lines[j])),
            None => forall|j: int| 0 <= j < lines.len() ==> readable(#[trigger] lines[j]),
        },
    decreases lines.len(),
{
    if lines.len() > 0 && readable(lines[0]) {
        let rest = lines.drop_first();
        lemma_first_unreadable(rest);
        match first_unreadable(rest) {
            Some(line) => {
                let i = choose|i: int|
                    0 <= i < rest.len() && #[trigger] rest[i] == line && !readable(line) && (forall|
                        j: int,
                    |
                        0 <= j < i ==> readable(#[trigger] rest[j]));
                assert(lines[i + 1] == line);
                assert forall|j: int| 0 <= j < i + 1 implies readable(#[trigger] lines[j]) by {
                    if j > 0 {
                        assert(lines[j] == rest[j - 1]);
                    }
                }
            },
            None => {
                assert forall|j: int| 0 <= j < lines.len() implies readable(
                    #[trigger] lines[j],
                ) by {
                    if j > 0 {
                        assert(lines[j] == rest[j - 1]);
                    }
                }
            },
        }
    }
}

/// A patch is read exactly if each line of it can be part of a patch and it is blank or
/// has a hunk. Its old text is then what its lines that start with a space or a minus
/// sign say behind that, and its new text what those say that start with a space or a
/// plus sign. Of a patch that is not read the first line is told that can be part of
/// none, or that it has no hunk.
pub proof fn lemma_parsed_patch(patch: Seq<char>)
    ensures
        parsed_patch(patch) matches Ok((old_text, new_text)) ==> {
            &&& old_text == Seq::new(
                lines_of(patch).len(),
                |i: int|
                    if lines_of(patch)[i].len() > 0 && (lines_of(patch)[i][0] == ' ' || (lines_of(patch)[i][0] == '-' && !begins(
                        lines_of(patch)[i],
                        "--- "@,
                    ))) {
                        lines_of(patch)[i].skip(1).push('\n')
                    } else {
                        Seq::<char>::empty()
                    },
            ).flatten()
            &&& new_text == Seq::new(
                lines_of(patch).len(),
                |i: int|
                    if lines_of(patch)[i].len() > 0 && (lines_of(patch)[i][0] == ' ' || (lines_of(patch)[i][0] == '+' && !begins(
                        lines_of(patch)[i],
                        "+++ "@,
                    ))) {
                        lines_of(patch)[i].skip(1).push('\n')
                    } else {
                        Seq::<char>::empty()
                    },
            ).flatten()
        },
        parsed_patch(patch) is Ok <==> (forall|i: int|
            0 <= i < lines_of(patch).len() ==> ({
                let line = #[trigger] lines_of(patch)[i];
                (line.len() == 0 || line[0] == ' ' || line[0] == '-' || line[0] == '+' || begins(
                line,
                "@@"@,
            ) || begins(line, "\\ No newline at end of file"@) || begins(line, "diff --git "@))
            })) && (trimmed(patch).len() == 0 || exists|i: int|
            0 <= i < lines_of(patch).len() && begins(#[trigger] lines_of(patch)[i], "@@"@)),
        parsed_patch(patch) matches Err(message) ==> (message
            == "GitHub patch did not contain a hunk"@ && (forall|i: int|
            0 <= i < lines_of(patch).len() ==> readable(#[trigger] lines_of(patch)[i]))) || exists|
            i: int,
        |
            0 <= i < lines_of(patch).len() && message == "Unsupported GitHub patch line: "@ + (
            #[trigger] lines_of(patch)[i]) && !readable(lines_of(patch)[i]) && (forall|j: int|
                0 <= j < i ==> readable(#[trigger] lines_of(patch)[j])),
{
    let lines = lines_of(patch);
    assert forall|i: int| 0 <= i < lines.len() implies readable(#[trigger] lines[i]) <==> ({
        let line = lines[i];
        (line.len() == 0 || line[0] == ' ' || line[0] == '-' || line[0] == '+' || begins(
                line,
                "@@"@,
            ) || begins(line, "\\ No newline at end of file"@) || begins(line, "diff --git "@))
    }) by {
        lemma_line_shares(lines[i]);
    }
    lemma_first_unreadable(lines);
    lemma_texts_flatten(lines);
    let olds = Seq::new(lines.len(), |i: int| old_share(lines[i]));
    let news = Seq::new(lines.len(), |i: int| new_share(lines[i]));
    assert(olds =~= Seq::new(
                lines.len(),
                |i: int|
                    if lines[i].len() > 0 && (lines[i][0] == ' ' || (lines[i][0] == '-' && !begins(
                        lines[i],
                        "--- "@,
                    ))) {
                        lines[i].skip(1).push('\n')
                    } else {
                        Seq::<char>::empty()
                    },
            )) by {
        assert forall|i: int| 0 <= i < lines.len() implies olds[i] == old_share(lines[i]) by {}
        assert forall|i: int| #![trigger lines[i]] 0 <= i < lines.len() implies old_share(lines[i])
            == (if lines[i].len() > 0 && (lines[i][0] == ' ' || (lines[i][0] == '-' && !begins(
            lines[i],
            "--- "@,
        ))) {
            lines[i].skip(1).push('\n')
        } else {
            Seq::<char>::empty()
        }) by {
            lemma_line_shares(lines[i]);
        }
    }
    assert(news =~= Seq::new(
                lines.len(),
                |i: int|
                    if lines[i].len() > 0 && (lines[i][0] == ' ' || (lines[i][0] == '+' && !begins(
                        lines[i],
                        "+++ "@,
                    ))) {
                        lines[i].skip(1).push('\n')
                    } else {
                        Seq::<char>::empty()
                    },
            )) by {
        assert forall|i: int| #![trigger lines[i]] 0 <= i < lines.len() implies new_share(lines[i])
            == (if lines[i].len() > 0 && (lines[i][0] == ' ' || (lines[i][0] == '+' && !begins(
            lines[i],
            "+++ "@,
        ))) {
            lines[i].skip(1).push('\n')
        } else {
            Seq::<char>::empty()
        }) by {
            lemma_line_shares(lines[i]);
        }
    }
}

/// What is listed are all files, and what is shown are those that can be shown, each
/// with what it says of itself and in the order in which the files come. Nothing is
/// listed or shown if some name spells no path: then the first such name is told of.
pub proof fn lemma_plan(files: Seq<ResolvedModel>)
    ensures
        planned(files) matches Ok((listed, shown)) ==> {
            &&& listed == files.map_values(
                |file: ResolvedModel|
                    DiffFile {
                        filename: file.parsed.filename,
                        old_filename: file.parsed.old_filename,
                        status: file.parsed.status,
                        additions: file.parsed.additions,
                        deletions: file.parsed.deletions,
                        path_key: PathKeyModel {
                            sort_prefix: file.index as u64,
                            path: file.path->Ok_0.path,
                        },
                        unsupported_reason: file.parsed.unsupported_reason,
                        preview_note: file.parsed.preview_note,
                    },
            )
            &&& shown == files.filter(
                |file: ResolvedModel| file.parsed.unsupported_reason is None,
            ).map_values(
                |file: ResolvedModel|
                    DiffEntry {
                        file: DiffFile {
                            filename: file.parsed.filename,
                            old_filename: file.parsed.old_filename,
                            status: file.parsed.status,
                            additions: file.parsed.additions,
                            deletions: file.parsed.deletions,
                            path_key: PathKeyModel {
                                sort_prefix: file.index as u64,
                                path: file.path->Ok_0.path,
                            },
                            unsupported_reason: None,
                            preview_note: file.parsed.preview_note,
                        },
                        path: file.path->Ok_0.path,
                        display_name: match file.path->Ok_0.file_name {
                            Some(name) => name,
                            None => file.parsed.filename,
                        },
                        is_removed: file.parsed.status == "removed"@,
                        old_text: file.parsed.old_text,
                        new_text: file.parsed.new_text,
                    },
            )
        },
        planned(files) matches Err(problem) ==> exists|i: int|
            0 <= i < files.len() && (#[trigger] files[i]).path == Err::<PathModel, _>(problem) && (
            forall|j: int| 0 <= j < i ==> (#[trigger] files[j]).path is Ok),
    decreases files.len(),
{
    reveal(Seq::filter);
    if files.len() > 0 {
        let rest = files.drop_last();
        lemma_plan(rest);
        lemma_planned(rest);
        if planned(rest) is Err {
            let problem = planned(rest)->Err_0;
            let i = choose|i: int|
                0 <= i < rest.len() && (#[trigger] rest[i]).path == Err::<PathModel, _>(problem)
                    && (forall|j: int| 0 <= j < i ==> (#[trigger] rest[j]).path is Ok);
            assert(files[i] == rest[i]);
            assert forall|j: int| 0 <= j < i implies (#[trigger] files[j]).path is Ok by {
                assert(rest[j].path is Ok);
            }
        } else if files.last().path is Err {
            assert(files[files.len() - 1].path is Err);
            assert forall|j: int| 0 <= j < files.len() - 1 implies (
            #[trigger] files[j]).path is Ok by {
                assert(rest[j].path is Ok);
            }
        }
    }
}

/// Files are put in the order of the pull request: none of them is lost, and none
/// stands before one that has an earlier place.
pub proof fn lemma_pull_order(files: Seq<ResolvedModel>, i: int, j: int)
    requires
        0 <= i < j < in_pull_order(files).len(),
    ensures
        in_pull_order(files)[i].index <= in_pull_order(files)[j].index,
        in_pull_order(files).to_multiset() == files.to_multiset(),
{
    let before = |a: ResolvedModel, b: ResolvedModel| a.index < b.index;
    assert(orders(before));
    lemma_stably_sorted(files, before);
    assert(!before(in_pull_order(files)[j], in_pull_order(files)[i]));
}

/// Files add and delete what each of them adds and deletes.
pub proof fn lemma_totals(files: Seq<DiffFile>, file: DiffFile)
    ensures
        total_additions(Seq::empty()) == 0,
        total_deletions(Seq::empty()) == 0,
        total_additions(files.push(file)) == total_additions(files) + file.additions,
        total_deletions(files.push(file)) == total_deletions(files) + file.deletions,
{
    assert(files.push(file).drop_last() == files);
}

/// Which patches can be read or refused: those whose first line that can be part of
/// none, if there is one, starts with a character of one byte.
pub proof fn lemma_parseable(patch: Seq<char>)
    ensures
        parseable(patch) <==> forall|i: int|
            0 <= i < lines_of(patch).len() && !readable(#[trigger] lines_of(patch)[i]) && (forall|
                j: int,
            |
                0 <= j < i ==> readable(#[trigger] lines_of(patch)[j])) ==> lines_of(
                patch,
            )[i][0] as int <= 0x7f,
{
    let lines = lines_of(patch);
    lemma_first_unreadable(lines);
    if let Some(line) = first_unreadable(lines) {
        lemma_line_shares(line);
        let i = choose|i: int|
            0 <= i < lines.len() && #[trigger] lines[i] == line && !readable(line) && (forall|
                j: int,
            |
                0 <= j < i ==> readable(#[trigger] lines[j]));
        assert forall|k: int|
            0 <= k < lines.len() && !readable(#[trigger] lines[k]) && (forall|j: int|
                0 <= j < k ==> readable(#[trigger] lines[j])) implies k == i by {
            if k < i {
                assert(readable(lines[k]));
            }
            if i < k {
                assert(readable(lines[i]));
            }
        }
    }
}

} // verus!
