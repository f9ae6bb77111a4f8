//! The configuration on disk: which files hold what, and how a configuration
//! comes together from the files that were found.
//!
//! Every project and every tag has a file of its own. The name of the file is
//! the name of the project or tag, the directory in which it lies below the
//! root of all projects or tags is its storage path. Below what a file holds
//! stands an example of all fields, as comments.

use vstd::prelude::*;
use vstd::string::*;
use crate::config::path::{absolute, is_absolute, join_path, joined, FwPaths};
use crate::config::project::{Project, ProjectView};
use crate::config::settings::{PersistedSettings, Settings, Tag, TagView};
use crate::config::Config;
use crate::errors::{AppError, ErrorView};
use crate::name_map::NameMap;
use crate::names::NameSet;
use crate::text::{
    blank, char_is_space, clone_opt, lemma_lines_nonempty, lines, opt_text, slice, str_eq,
    to_chars,
};

verus! {

/// The first line of every project file and every tag file: it tells editors
/// how to show the file.
pub open spec fn mode_header() -> Seq<char> {
    "# -*- mode: Conf; -*-\n"@
}

/// A line of an example as it stands in a file: as a comment, or not at all
/// if it is blank.
pub open spec fn comment_line(line: Seq<char>) -> Seq<char> {
    if blank(line) {
        Seq::empty()
    } else {
        "# "@ + line + "\n"@
    }
}

/// The lines `list` as comments, one after the other.
pub open spec fn commented(list: Seq<Seq<char>>) -> Seq<char>
    decreases list.len(),
{
    if list.len() == 0 {
        Seq::empty()
    } else {
        commented(list.drop_last()) + comment_line(list.last())
    }
}

/// The example that stands below what a file holds: an empty line, a
/// heading, and every line of the example that is not blank, all as
/// comments.
pub open spec fn example_text(example: Seq<char>) -> Seq<char> {
    "\n# Example:\n"@ + commented(lines(example))
}

/// Whether `line` holds nothing but white space.
fn is_blank(chars: &Vec<char>, from: usize, to: usize) -> (empty: bool)
    requires
        from <= to <= chars.len(),
    ensures
        empty == blank(chars@.subrange(from as int, to as int)),
{
    let mut i: usize = from;
    while i < to
        invariant
            from <= i <= to <= chars.len(),
            forall|k: int| from <= k < i ==> crate::text::is_space(chars@[k]),
        decreases to - i,
    {
        if !char_is_space(chars[i]) {
            assert(chars@.subrange(from as int, to as int)[i - from] == chars@[i as int]);
            return false;
        }
        i += 1;
    }
    assert forall|k: int| 0 <= k < to - from implies crate::text::is_space(
        #[trigger] chars@.subrange(from as int, to as int)[k],
    ) by {
        assert(chars@.subrange(from as int, to as int)[k] == chars@[from + k]);
    }
    true
}

/// The example that stands below what a file holds.
pub fn write_example(example: &str) -> (block: String)
    ensures
        block@ == example_text(example@),
{
    let chars = to_chars(example);
    let mut block = String::from_str("\n# Example:\n");
    let mut start: usize = 0;
    let mut i: usize = 0;
    let ghost text = chars@;
    proof {
        assert(text.take(0) =~= Seq::<char>::empty());
        assert(lines(text.take(0)).drop_last() =~= Seq::<Seq<char>>::empty());
        assert(text.subrange(0, 0) =~= Seq::<char>::empty());
    }
    while i < chars.len()
        invariant
            start <= i <= chars.len(),
            text == chars@,
            text == example@,
            lines(text.take(i as int)).len() >= 1,
            lines(text.take(i as int)).last() == text.subrange(start as int, i as int),
            block@ == "\n# Example:\n"@ + commented(lines(text.take(i as int)).drop_last()),
        decreases chars.len() - i,
    {
        let ghost before = lines(text.take(i as int));
        proof {
            let upto = text.take(i + 1);
            assert(upto.drop_last() =~= text.take(i as int));
            assert(upto.last() == text[i as int]);
            lemma_lines_nonempty(upto);
        }
        if chars[i] == '\n' {
            let line = slice(example, start, i);
            proof {
                let now = lines(text.take(i + 1));
                assert(now == before.push(Seq::<char>::empty()));
                assert(now.drop_last() =~= before);
                assert(before =~= before.drop_last().push(before.last()));
                assert(commented(before) == commented(before.drop_last()) + comment_line(
                    before.last(),
                ));
                assert(text.subrange(i + 1, i + 1) =~= Seq::<char>::empty());
            }
            if !is_blank(&chars, start, i) {
                let ghost old_block = block@;
                block.append("# ");
                block.append(line);
                block.append("\n");
                assert(block@ =~= old_block + comment_line(line@));
            } else {
                assert(block@ =~= block@ + comment_line(line@));
            }
            assert(block@ =~= "\n# Example:\n"@ + commented(before));
            start = i + 1;
        } else {
            proof {
                let now = lines(text.take(i + 1));
                assert(now == before.drop_last().push(before.last().push(text[i as int])));
                assert(now.drop_last() =~= before.drop_last());
                assert(now.last() =~= text.subrange(start as int, i + 1));
            }
        }
        i += 1;
    }
    proof {
        assert(text.take(i as int) =~= text);
        let all = lines(text);
        assert(all =~= all.drop_last().push(all.last()));
    }
    if !is_blank(&chars, start, i) {
        let line = slice(example, start, i);
        let ghost old_block = block@;
        block.append("# ");
        block.append(line);
        block.append("\n");
        assert(block@ =~= old_block + comment_line(line@));
    } else {
        assert(block@ =~= block@ + comment_line(text.subrange(start as int, i as int)));
    }
    assert(block@ =~= "\n# Example:\n"@ + commented(lines(text)));
    block
}

/// Every line of `text` is empty or begins with `#`: what follows a line
/// feed, and what begins the text, is a `#` or a line feed.
pub open spec fn comments_only(text: Seq<char>) -> bool {
    forall|i: int|
        0 <= i < text.len() && (i == 0 || text[i - 1] == '\n') ==> (#[trigger] text[i]) == '#'
            || text[i] == '\n'
}

/// Whether `text` can be followed by a new line at once: it is empty or ends
/// in a line feed.
pub open spec fn closed_line(text: Seq<char>) -> bool {
    text.len() == 0 || text.last() == '\n'
}

/// Whether `line` holds no line feed.
pub open spec fn contains_no_line_feed(line: Seq<char>) -> bool {
    forall|i: int| 0 <= i < line.len() ==> #[trigger] line[i] != '\n'
}

proof fn lemma_lines_hold_no_line_feed(text: Seq<char>, k: int)
    requires
        0 <= k < lines(text).len(),
    ensures
        contains_no_line_feed(lines(text)[k]),
    decreases text.len(),
{
    if text.len() > 0 {
        let before = lines(text.drop_last());
        lemma_lines_nonempty(text.drop_last());
        if text.last() == '\n' {
            if k < before.len() {
                lemma_lines_hold_no_line_feed(text.drop_last(), k);
            }
        } else {
            if k < before.len() - 1 {
                lemma_lines_hold_no_line_feed(text.drop_last(), k);
            } else {
                lemma_lines_hold_no_line_feed(text.drop_last(), before.len() - 1);
            }
        }
    }
}

proof fn lemma_comment_line(line: Seq<char>)
    requires
        contains_no_line_feed(line),
    ensures
        comments_only(comment_line(line)),
        closed_line(comment_line(line)),
{
    reveal_strlit("# ");
    reveal_strlit("\n");
    if !blank(line) {
        let out = comment_line(line);
        assert(out[0] == '#');
        assert(out[1] == ' ');
        assert(out.last() == '\n');
        assert forall|i: int|
            0 <= i < out.len() && (i == 0 || out[i - 1] == '\n') implies (#[trigger] out[i]) == '#'
            || out[i] == '\n' by {
            if i >= 3 {
                assert(out[i - 1] == line[i - 3]);
            }
        }
    }
}

proof fn lemma_comments_join(a: Seq<char>, b: Seq<char>)
    requires
        comments_only(a),
        closed_line(a),
        comments_only(b),
        closed_line(b),
    ensures
        comments_only(a + b),
        closed_line(a + b),
{
    let t = a + b;
    assert forall|i: int|
        0 <= i < t.len() && (i == 0 || t[i - 1] == '\n') implies (#[trigger] t[i]) == '#' || t[i]
        == '\n' by {
        if i < a.len() {
            assert(t[i] == a[i]);
            if i > 0 {
                assert(t[i - 1] == a[i - 1]);
            }
        } else {
            assert(t[i] == b[i - a.len()]);
            if i > a.len() {
                assert(t[i - 1] == b[i - a.len() - 1]);
            }
        }
    }
    if b.len() > 0 {
        assert(t.last() == b.last());
    } else {
        assert(t =~= a);
    }
}

proof fn lemma_commented(list: Seq<Seq<char>>)
    requires
        forall|k: int| 0 <= k < list.len() ==> contains_no_line_feed(#[trigger] list[k]),
    ensures
        comments_only(commented(list)),
        closed_line(commented(list)),
    decreases list.len(),
{
    if list.len() > 0 {
        let front = list.drop_last();
        assert forall|k: int| 0 <= k < front.len() implies contains_no_line_feed(
            #[trigger] front[k],
        ) by {
            assert(front[k] == list[k]);
        }
        lemma_commented(front);
        assert(contains_no_line_feed(list[list.len() - 1]));
        lemma_comment_line(list.last());
        lemma_comments_join(commented(front), comment_line(list.last()));
    }
}

/// The example below a file is made of comments and empty lines only, and
/// begins on a line of its own: whatever stands before it in the file, it
/// adds nothing that a reader of the file takes for more than a comment.
pub proof fn law_example_is_comment(example: Seq<char>)
    ensures
        comments_only(example_text(example)),
        example_text(example).len() > 0,
        example_text(example)[0] == '\n',
        closed_line(example_text(example)),
{
    reveal_strlit("\n# Example:\n");
    let head = "\n# Example:\n"@;
    assert(comments_only(head)) by {
        assert forall|i: int|
            0 <= i < head.len() && (i == 0 || head[i - 1] == '\n') implies (#[trigger] head[i])
            == '#' || head[i] == '\n' by {
            if i > 1 {
                assert(head[i - 1] != '\n');
            }
        }
    }
    assert(head.last() == '\n');
    assert forall|k: int| 0 <= k < lines(example).len() implies contains_no_line_feed(
        #[trigger] lines(example)[k],
    ) by {
        lemma_lines_hold_no_line_feed(example, k);
    }
    lemma_commented(lines(example));
    lemma_comments_join(head, commented(lines(example)));
}

/// A storage path that is written is read back: the directory in which the
/// file of an entity lies, seen from the root below which it was put, is the
/// entity's storage path.
pub proof fn law_storage_path_is_read_back(root: Seq<char>, sub_path: Seq<char>)
    requires
        root.len() > 0,
        !absolute(sub_path),
    ensures
        relative(joined(root, sub_path), root) == Some(sub_path),
{
    reveal_strlit("/");
    let directory = joined(root, sub_path);
    let closed = closed_with_separator(root);
    if root.last() == '/' {
        if sub_path.len() == 0 {
            assert(directory =~= root);
            assert(sub_path =~= Seq::<char>::empty());
        } else {
            assert(directory != root);
            assert(closed =~= directory.subrange(0, closed.len() as int));
            assert(directory.skip(closed.len() as int) =~= sub_path);
        }
    } else {
        assert(directory =~= root + seq!['/'] + sub_path);
        assert(closed =~= root + seq!['/']);
        assert(directory != root);
        assert(closed =~= directory.subrange(0, closed.len() as int));
        assert(directory.skip(closed.len() as int) =~= sub_path);
    }
}

/// A project that is written and read again is the same project: where the
/// file that was written for `project` is found again under its name, in the
/// directory it was written to, and holds what the project holds but for
/// its name and its storage path, the project that the file stands for is
/// `project`.
pub proof fn law_written_project_is_read_back(
    root: Seq<char>,
    project: Project,
    serialized: Seq<char>,
    example: Seq<char>,
    found: ProjectFile,
)
    requires
        root.len() > 0,
        !absolute(project@.project_config_path),
        found.file_name@ == project@.name,
        relative(
            entity_file(
                root,
                project@.project_config_path,
                project@.name,
                serialized,
                example,
            ).directory,
            root,
        ) == Some(found.directory@),
        found.project@ == (ProjectView {
            name: found.project@.name,
            project_config_path: found.project@.project_config_path,
            ..project@
        }),
    ensures
        project_of(found) == project@,
{
    law_storage_path_is_read_back(root, project@.project_config_path);
}

/// A project that is written is found again when the configuration is read:
/// where among the files that were found the file written for `project` is
/// the only one of its name, lies where it was written to, and holds what the
/// project holds but for its name and its storage path, every configuration
/// that holds what the files stand for has `project` under its name, with
/// every field as it was written.
pub proof fn law_written_project_is_in_the_configuration(
    projects: NameMap<Project>,
    files: Seq<ProjectFile>,
    at: int,
    root: Seq<char>,
    project: Project,
    serialized: Seq<char>,
    example: Seq<char>,
)
    requires
        holds_projects(projects, files),
        0 <= at < files.len(),
        forall|k: int| 0 <= k < files.len() && k != at ==> (#[trigger] files[k]).file_name@
            != project@.name,
        root.len() > 0,
        !absolute(project@.project_config_path),
        files[at].file_name@ == project@.name,
        relative(
            entity_file(
                root,
                project@.project_config_path,
                project@.name,
                serialized,
                example,
            ).directory,
            root,
        ) == Some(files[at].directory@),
        files[at].project@ == (ProjectView {
            name: files[at].project@.name,
            project_config_path: files[at].project@.project_config_path,
            ..project@
        }),
    ensures
        projects.has(project@.name),
        projects.lookup(project@.name).unwrap()@ == project@,
{
    let names = project_file_names(files);
    let name = project@.name;
    lemma_last_index(names, name);
    assert(names[at] == name);
    assert(names.contains(name));
    let last = last_index(names, name);
    assert(names[last] == files[last].file_name@);
    assert(last == at);
    law_written_project_is_read_back(root, project, serialized, example, files[at]);
    assert(projects.has(name));
}

/// One file to write: the directory that must exist, the file in it, and
/// what the file is to hold.
#[derive(Debug, PartialEq, Eq)]
pub struct FileWrite {
    pub directory: String,
    pub file: String,
    pub content: String,
}

/// A file to write, as plain text.
pub struct FileWriteView {
    pub directory: Seq<char>,
    pub file: Seq<char>,
    pub content: Seq<char>,
}

impl View for FileWrite {
    type V = FileWriteView;

    open spec fn view(&self) -> FileWriteView {
        FileWriteView { directory: self.directory@, file: self.file@, content: self.content@ }
    }
}

/// The file of an entity called `name` with the storage path `sub_path`
/// below `root`, holding `serialized` behind the header and before the
/// example.
pub open spec fn entity_file(
    root: Seq<char>,
    sub_path: Seq<char>,
    name: Seq<char>,
    serialized: Seq<char>,
    example: Seq<char>,
) -> FileWriteView {
    FileWriteView {
        directory: joined(root, sub_path),
        file: joined(joined(root, sub_path), name),
        content: mode_header() + serialized + example_text(example),
    }
}

fn write_entity(root: &str, sub_path: &str, name: &str, serialized: &str, example: &str) -> (file:
    FileWrite)
    ensures
        file@ == entity_file(root@, sub_path@, name@, serialized@, example@),
{
    let directory = join_path(root, sub_path);
    let file = join_path(directory.as_str(), name);
    let mut content = String::from_str("# -*- mode: Conf; -*-\n");
    content.append(serialized);
    content.append(write_example(example).as_str());
    FileWrite { directory, file, content }
}

/// The file that holds `project`: it lies below the root of all projects in
/// the project's storage path and has the project's name. `serialized` is
/// the project in the form of the file, `example` the example project in that
/// form.
pub fn write_project(paths: &FwPaths, project: &Project, serialized: &str, example: &str) -> (file:
    FileWrite)
    ensures
        file@ == entity_file(
            paths.projects@,
            project.project_config_path@,
            project.name@,
            serialized@,
            example@,
        ),
{
    write_entity(
        paths.projects.as_str(),
        project.project_config_path.as_str(),
        project.name.as_str(),
        serialized,
        example,
    )
}

/// The file that holds the tag `tag_name`.
pub fn write_tag(paths: &FwPaths, tag_name: &str, tag: &Tag, serialized: &str, example: &str) -> (file:
    FileWrite)
    ensures
        file@ == entity_file(paths.tags@, tag.tag_config_path@, tag_name@, serialized@, example@),
{
    write_entity(paths.tags.as_str(), tag.tag_config_path.as_str(), tag_name, serialized, example)
}

/// The settings file: the settings, then the example, without a header.
pub fn write_settings(paths: &FwPaths, serialized: &str, example: &str) -> (file: FileWrite)
    ensures
        file@ == (FileWriteView {
            directory: paths.base@,
            file: paths.settings@,
            content: serialized@ + example_text(example@),
        }),
{
    let mut content = String::from_str(serialized);
    content.append(write_example(example).as_str());
    FileWrite { directory: paths.base.clone(), file: paths.settings.clone(), content }
}

/// The file of the tag `tag_name`, to be removed.
pub fn delete_tag_config(paths: &FwPaths, tag_name: &str, tag: &Tag) -> (file: String)
    ensures
        file@ == joined(joined(paths.tags@, tag.tag_config_path@), tag_name@),
{
    let directory = join_path(paths.tags.as_str(), tag.tag_config_path.as_str());
    join_path(directory.as_str(), tag_name)
}

/// The file of `project`, to be removed.
pub fn delete_project_config(paths: &FwPaths, project: &Project) -> (file: String)
    ensures
        file@ == joined(joined(paths.projects@, project.project_config_path@), project.name@),
{
    let directory = join_path(paths.projects.as_str(), project.project_config_path.as_str());
    join_path(directory.as_str(), project.name.as_str())
}

/// Whether a file of this name in a configuration directory is a project or
/// a tag: all are, but the files that a file manager leaves behind.
pub fn is_entity_file(file_name: &str) -> (yes: bool)
    ensures
        yes == (file_name@ != ".DS_Store"@),
{
    !str_eq(file_name, ".DS_Store")
}

/// The directory `directory` as seen from `root`, as a specification: none
/// where it does not lie in `root`.
pub open spec fn relative(directory: Seq<char>, root: Seq<char>) -> Option<Seq<char>> {
    if directory == root {
        Some(Seq::empty())
    } else if closed_with_separator(root).is_prefix_of(directory) {
        Some(directory.skip(closed_with_separator(root).len() as int))
    } else {
        None
    }
}

/// `root` with a separator at its end.
pub open spec fn closed_with_separator(root: Seq<char>) -> Seq<char> {
    if root.len() > 0 && root.last() == '/' {
        root
    } else {
        root + "/"@
    }
}

/// The storage path of an entity whose file lies in `directory`: the
/// directory as seen from `root`. A directory that does not lie in `root` is
/// a failure.
pub fn storage_path(directory: &str, root: &str) -> (sub_path: Result<String, AppError>)
    ensures
        match sub_path {
            Ok(p) => relative(directory@, root@) == Some(p@),
            Err(e) => relative(directory@, root@) is None && e@ == ErrorView::RuntimeError(
                "Failed to strip prefix: prefix not found"@,
            ),
        },
{
    if str_eq(directory, root) {
        return Ok(String::new());
    }
    let mut closed = String::from_str(root);
    let n = root.unicode_len();
    if !(n > 0 && root.get_char(n - 1) == '/') {
        closed.append("/");
    }
    if crate::text::starts_with(directory, closed.as_str()) {
        let from = closed.as_str().unicode_len();
        let to = directory.unicode_len();
        let rest = slice(directory, from, to);
        assert(rest@ =~= directory@.skip(from as int));
        Ok(String::from_str(rest))
    } else {
        Err(AppError::RuntimeError(String::from_str("Failed to strip prefix: prefix not found")))
    }
}

/// A project file that was found and read.
#[derive(Debug)]
pub struct ProjectFile {
    /// The name of the file.
    pub file_name: String,
    /// The directory in which the file lies, as seen from the root of all
    /// projects.
    pub directory: String,
    /// What the file holds.
    pub project: Project,
}

/// A tag file that was found and read.
#[derive(Debug)]
pub struct TagFile {
    /// The name of the file.
    pub file_name: String,
    /// The directory in which the file lies, as seen from the root of all
    /// tags.
    pub directory: String,
    /// What the file holds.
    pub tag: Tag,
}

/// The place of the last of `names` that is `name`, or -1 where none is.
pub open spec fn last_index(names: Seq<Seq<char>>, name: Seq<char>) -> int
    decreases names.len(),
{
    if names.len() == 0 {
        -1
    } else if names.last() == name {
        names.len() - 1
    } else {
        last_index(names.drop_last(), name)
    }
}

/// The place that `last_index` names is a place of `name`.
pub proof fn lemma_last_index(names: Seq<Seq<char>>, name: Seq<char>)
    ensures
        -1 <= last_index(names, name) < names.len(),
        last_index(names, name) >= 0 ==> names[last_index(names, name)] == name,
        last_index(names, name) >= 0 <==> names.contains(name),
        forall|k: int| last_index(names, name) < k < names.len() ==> names[k] != name,
    decreases names.len(),
{
    if names.len() > 0 {
        let front = names.drop_last();
        lemma_last_index(front, name);
        if names.last() == name {
            assert(names[names.len() - 1] == name);
        } else {
            if names.contains(name) {
                let k = choose|k: int| 0 <= k < names.len() && names[k] == name;
                assert(front[k] == name);
            }
            if front.contains(name) {
                let k = choose|k: int| 0 <= k < front.len() && front[k] == name;
                assert(names[k] == name);
            }
            assert forall|k: int| last_index(names, name) < k < names.len() implies names[k]
                != name by {
                if k < front.len() {
                    assert(front[k] == names[k]);
                }
            }
        }
    }
}

/// The project that a project file stands for: what the file holds, under
/// the name of the file and with the file's directory as storage path.
pub open spec fn project_of(file: ProjectFile) -> ProjectView {
    ProjectView { name: file.file_name@, project_config_path: file.directory@, ..file.project@ }
}

/// The tag that a tag file stands for: what the file holds, with the file's
/// directory as storage path.
pub open spec fn tag_of(file: TagFile) -> TagView {
    TagView { tag_config_path: file.directory@, ..file.tag@ }
}

/// The names of the project files `files`.
pub open spec fn project_file_names(files: Seq<ProjectFile>) -> Seq<Seq<char>> {
    files.map_values(|f: ProjectFile| f.file_name@)
}

/// The names of the tag files `files`.
pub open spec fn tag_file_names(files: Seq<TagFile>) -> Seq<Seq<char>> {
    files.map_values(|f: TagFile| f.file_name@)
}

/// Whether `projects` holds what the project files `files` stand for: one
/// project for each name of a file, and of several files of one name the
/// last.
pub open spec fn holds_projects(projects: NameMap<Project>, files: Seq<ProjectFile>) -> bool {
    forall|name: Seq<char>|
        {
            let at = last_index(project_file_names(files), name);
            &&& #[trigger] projects.has(name) <==> at >= 0
            &&& at >= 0 ==> projects.lookup(name).unwrap()@ == project_of(files[at])
        }
}

/// Whether `tags` holds what the tag files `files` stand for.
pub open spec fn holds_tags(tags: NameMap<Tag>, files: Seq<TagFile>) -> bool {
    forall|name: Seq<char>|
        {
            let at = last_index(tag_file_names(files), name);
            &&& #[trigger] tags.has(name) <==> at >= 0
            &&& at >= 0 ==> tags.lookup(name).unwrap()@ == tag_of(files[at])
        }
}

/// The projects that `files` stand for.
pub fn collect_projects(files: &Vec<ProjectFile>) -> (projects: NameMap<Project>)
    ensures
        holds_projects(projects, files@),
{
    let mut projects: NameMap<Project> = NameMap::new();
    let mut i: usize = 0;
    assert(files@.take(0) =~= Seq::<ProjectFile>::empty());
    while i < files.len()
        invariant
            i <= files.len(),
            holds_projects(projects, files@.take(i as int)),
        decreases files.len() - i,
    {
        let file = &files[i];
        let mut project = file.project.clone();
        project.name = file.file_name.clone();
        project.project_config_path = file.directory.clone();
        let ghost before = projects;
        let ghost seen = files@.take(i as int);
        let ghost now = files@.take(i + 1);
        projects.insert(file.file_name.clone(), project);
        proof {
            assert(now.drop_last() =~= seen);
            assert(now.last() == files@[i as int]);
            assert(project_file_names(now).drop_last() =~= project_file_names(seen));
            assert(project_file_names(now).last() == file.file_name@);
            assert forall|name: Seq<char>|
                {
                    let at = last_index(project_file_names(now), name);
                    &&& #[trigger] projects.has(name) <==> at >= 0
                    &&& at >= 0 ==> projects.lookup(name).unwrap()@ == project_of(now[at])
                } by {
                lemma_last_index(project_file_names(now), name);
                lemma_last_index(project_file_names(seen), name);
                if name == file.file_name@ {
                } else {
                    assert(before.has(name) <==> last_index(project_file_names(seen), name) >= 0);
                    let at = last_index(project_file_names(seen), name);
                    if at >= 0 {
                        assert(now[at] == seen[at]);
                    }
                }
            }
        }
        i += 1;
    }
    assert(files@.take(files@.len() as int) =~= files@);
    projects
}

/// The tags that `files` stand for.
pub fn collect_tags(files: &Vec<TagFile>) -> (tags: NameMap<Tag>)
    ensures
        holds_tags(tags, files@),
{
    let mut tags: NameMap<Tag> = NameMap::new();
    let mut i: usize = 0;
    assert(files@.take(0) =~= Seq::<TagFile>::empty());
    while i < files.len()
        invariant
            i <= files.len(),
            holds_tags(tags, files@.take(i as int)),
        decreases files.len() - i,
    {
        let file = &files[i];
        let mut tag = file.tag.clone();
        tag.tag_config_path = file.directory.clone();
        let ghost before = tags;
        let ghost seen = files@.take(i as int);
        let ghost now = files@.take(i + 1);
        tags.insert(file.file_name.clone(), tag);
        proof {
            assert(now.drop_last() =~= seen);
            assert(now.last() == files@[i as int]);
            assert(tag_file_names(now).drop_last() =~= tag_file_names(seen));
            assert(tag_file_names(now).last() == file.file_name@);
            assert forall|name: Seq<char>|
                {
                    let at = last_index(tag_file_names(now), name);
                    &&& #[trigger] tags.has(name) <==> at >= 0
                    &&& at >= 0 ==> tags.lookup(name).unwrap()@ == tag_of(now[at])
                } by {
                lemma_last_index(tag_file_names(now), name);
                lemma_last_index(tag_file_names(seen), name);
                if name == file.file_name@ {
                } else {
                    assert(before.has(name) <==> last_index(tag_file_names(seen), name) >= 0);
                    let at = last_index(tag_file_names(seen), name);
                    if at >= 0 {
                        assert(now[at] == seen[at]);
                    }
                }
            }
        }
        i += 1;
    }
    assert(files@.take(files@.len() as int) =~= files@);
    tags
}

/// Whether the tag `name` of `tags` is given to every new project.
pub open spec fn is_default(tags: NameMap<Tag>, name: Seq<char>) -> bool {
    tags.lookup(name) matches Some(tag) && tag.default == Some(true)
}

/// The names of the tags that are given to every new project.
pub fn default_tags(tags: &NameMap<Tag>) -> (names: NameSet)
    ensures
        forall|x: Seq<char>| names.has(x) <==> is_default(*tags, x),
{
    let mut names = NameSet::new();
    let mut i: usize = 0;
    let n = tags.len();
    proof {
        use_type_invariant(tags);
    }
    while i < n
        invariant
            i <= n,
            n == tags.names().len(),
            tags.paired(),
            forall|x: Seq<char>|
                names.has(x) <==> (is_default(*tags, x) && exists|k: int|
                    0 <= k < i && tags.names()[k] == x),
        decreases n - i,
    {
        let tag = tags.value_at(i);
        let name = tags.key_at(i);
        let ghost before = names;
        let marked = match tag.default {
            Some(d) => d,
            None => false,
        };
        if marked {
            names.insert(name.clone());
        }
        proof {
            assert forall|x: Seq<char>|
                names.has(x) <==> (is_default(*tags, x) && exists|k: int|
                    0 <= k < i + 1 && tags.names()[k] == x) by {
                if names.has(x) {
                    if before.has(x) {
                        let k = choose|k: int| 0 <= k < i && tags.names()[k] == x;
                        assert(0 <= k < i + 1 && tags.names()[k] == x);
                    } else {
                        assert(x == name@);
                        assert(tags.names()[i as int] == x);
                    }
                }
                if is_default(*tags, x) && exists|k: int| 0 <= k < i + 1 && tags.names()[k] == x {
                    let k = choose|k: int| 0 <= k < i + 1 && tags.names()[k] == x;
                    if k < i {
                        assert(before.has(x));
                    }
                }
            }
        }
        i += 1;
    }
    proof {
        assert forall|x: Seq<char>| names.has(x) <==> is_default(*tags, x) by {
            if is_default(*tags, x) {
                assert(tags.has(x));
                let k = choose|k: int| 0 <= k < tags.names().len() && tags.names()[k] == x;
                assert(0 <= k < i && tags.names()[k] == x);
            }
        }
    }
    names
}

/// The configuration that the files stand for: the settings of the settings
/// file, the projects and the tags of their files, and as default tags those
/// tags that say so of themselves. Of two files of one name the one that was
/// found last counts.
pub fn read_config(
    settings: PersistedSettings,
    project_files: &Vec<ProjectFile>,
    tag_files: &Vec<TagFile>,
) -> (config: Config)
    ensures
        config.settings.persisted() == settings@,
        holds_projects(config.projects, project_files@),
        config.settings.tags matches Some(tags) && holds_tags(tags, tag_files@),
        config.settings.tags matches Some(tags) && config.settings.default_tags matches Some(
            defaults,
        ) && forall|x: Seq<char>| defaults.has(x) <==> is_default(tags, x),
{
    let projects = collect_projects(project_files);
    let tags = collect_tags(tag_files);
    let defaults = default_tags(&tags);
    Config {
        projects,
        settings: Settings {
            tags: Some(tags),
            workspace: settings.workspace,
            shell: settings.shell,
            default_after_workon: settings.default_after_workon,
            default_after_clone: settings.default_after_clone,
            default_tags: Some(defaults),
            github_token: settings.github_token,
            gitlab: settings.gitlab,
        },
    }
}

/// The error for a project whose path does not start at the root.
pub open spec fn relative_path_error(name: Seq<char>, path: Seq<char>) -> ErrorView {
    ErrorView::UserError("Path of project "@ + name + " is not absolute: "@ + path)
}

/// The first of `projects` whose path on a machine with the home directory
/// `home` is not absolute, if there is one.
pub open spec fn first_relative(config: Config, home: Option<Seq<char>>, upto: int) -> int
    decreases upto,
{
    if upto <= 0 {
        -1
    } else if first_relative(config, home, upto - 1) >= 0 {
        first_relative(config, home, upto - 1)
    } else if !absolute(config.path_of(&config.projects.values()[upto - 1], home)) {
        upto - 1
    } else {
        -1
    }
}

/// Checks that every project has an absolute path on a machine with the
/// home directory `home`. The first project that has none is named in the
/// error.
pub fn check_paths(config: &Config, home: &Option<String>) -> (result: Result<(), AppError>)
    ensures
        ({
            let n = config.projects.values().len() as int;
            let at = first_relative(*config, opt_text(*home), n);
            match result {
                Ok(_) => at < 0,
                Err(e) => e@ is UserError && 0 <= at < n && e@ == relative_path_error(
                    config.projects.values()[at]@.name,
                    config.path_of(&config.projects.values()[at], opt_text(*home)),
                ),
            }
        }),
        result is Ok <==> forall|i: int|
            0 <= i < config.projects.values().len() ==> absolute(
                config.path_of(&#[trigger] config.projects.values()[i], opt_text(*home)),
            ),
{
    let n = config.projects.len();
    let mut i: usize = 0;
    let ghost h = opt_text(*home);
    while i < n
        invariant
            i <= n,
            n == config.projects.values().len(),
            n == config.projects.names().len(),
            h == opt_text(*home),
            first_relative(*config, h, i as int) < 0,
            forall|k: int|
                0 <= k < i ==> absolute(config.path_of(&#[trigger] config.projects.values()[k], h)),
        decreases n - i,
    {
        let project = config.projects.value_at(i);
        let path = config.path_with_home(project, clone_opt(home));
        if !is_absolute(path.as_str()) {
            let mut text = String::from_str("Path of project ");
            text.append(project.name.as_str());
            text.append(" is not absolute: ");
            text.append(path.as_str());
            proof {
                lemma_first_relative_stays(*config, h, i as int + 1, n as int);
                assert(!absolute(config.path_of(&config.projects.values()[i as int], h)));
            }
            return Err(AppError::UserError(text));
        }
        i += 1;
    }
    Ok(())
}

proof fn lemma_first_relative_stays(config: Config, home: Option<Seq<char>>, at: int, upto: int)
    requires
        0 <= at <= upto,
        first_relative(config, home, at) >= 0,
    ensures
        first_relative(config, home, upto) == first_relative(config, home, at),
    decreases upto - at,
{
    if at < upto {
        lemma_first_relative_stays(config, home, at, upto - 1);
    }
}

} // verus!
