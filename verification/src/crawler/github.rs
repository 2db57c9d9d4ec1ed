//! Ingesting a GitHub repository: reading its URL, checking the branch name
//! handed to `git`, choosing which files to index, and the document and
//! summary made of each file. Cloning and walking the checkout run outside.
use vstd::prelude::*;
use crate::error::{ErrorView, SearchXyzError};
use crate::extractor::{ExtractedContent, ExtractedView};
use crate::text::{
    chars_eq, chars_of, decimal, opt_view, owned, push_decimal, push_str, slice_chars,
    spec_lowercase, str_views, string_from_chars, to_lowercase, trim, trim_str,
};
use crate::urls::{parse_url, spec_parse_url};

verus! {

/// The owner, repository and branch a GitHub URL names: the host must be
/// `github.com` (or `www.`); the first two path segments are the owner and
/// the repository (without a `.git` suffix); a third segment `tree` or
/// `blob` is followed by the branch.
pub open spec fn github_parts(url: Seq<char>) -> Option<(Seq<char>, Seq<char>, Option<Seq<char>>)> {
    match spec_parse_url(url) {
        None => None,
        Some(p) => match p.host {
            None => None,
            Some(h) => if h != "github.com"@ && h != "www.github.com"@ {
                None
            } else {
                match p.segments {
                    None => None,
                    Some(seg) => if seg.len() < 2 {
                        None
                    } else {
                        let owner = seg[0];
                        let repo = if seg[1].len() >= 4 && seg[1].subrange(
                            seg[1].len() - 4,
                            seg[1].len() as int,
                        ) == ".git"@ {
                            seg[1].subrange(0, seg[1].len() - 4)
                        } else {
                            seg[1]
                        };
                        let branch = if seg.len() >= 3 && (seg[2] == "tree"@ || seg[2] == "blob"@)
                            && seg.len() >= 4 {
                            Some(seg[3])
                        } else {
                            None
                        };
                        if owner.len() == 0 || repo.len() == 0 {
                            None
                        } else {
                            Some((owner, repo, branch))
                        }
                    },
                }
            },
        },
    }
}

/// Parse a GitHub URL to extract owner, repository and optional branch.
pub fn parse_github_url(url: &str) -> (r: Option<(String, String, Option<String>)>)
    ensures
        match r {
            Some((o, n, b)) => github_parts(url@) == Some((o@, n@, opt_view(b))),
            None => github_parts(url@) is None,
        },
{
    let p = match parse_url(url) {
        None => return None,
        Some(p) => p,
    };
    let h = match &p.host {
        None => return None,
        Some(h) => chars_of(h.as_str()),
    };
    if !chars_eq(&h, &chars_of("github.com")) && !chars_eq(&h, &chars_of("www.github.com")) {
        return None;
    }
    let seg = match &p.segments {
        None => return None,
        Some(s) => s,
    };
    let ghost sv = seg@.map_values(|x: String| x@);
    assert(p@.segments == Some(sv));
    if seg.len() < 2 {
        return None;
    }
    assert(sv[0] == seg@[0]@ && sv[1] == seg@[1]@);
    let owner = seg[0].clone();
    let r1 = chars_of(seg[1].as_str());
    let repo_chars = if r1.len() >= 4 && chars_eq(&slice_chars(&r1, r1.len() - 4, r1.len()), &chars_of(".git")) {
        slice_chars(&r1, 0, r1.len() - 4)
    } else {
        r1
    };
    let branch: Option<String> = if seg.len() >= 3 {
        assert(sv[2] == seg@[2]@);
        let s2 = chars_of(seg[2].as_str());
        if (chars_eq(&s2, &chars_of("tree")) || chars_eq(&s2, &chars_of("blob"))) && seg.len() >= 4 {
            assert(sv[3] == seg@[3]@);
            Some(seg[3].clone())
        } else {
            None
        }
    } else {
        None
    };
    if owner.as_str().is_empty() || repo_chars.len() == 0 {
        return None;
    }
    Some((owner, string_from_chars(repo_chars.as_slice()), branch))
}

/// Whether `char::is_alphanumeric` holds of a character.
pub uninterp spec fn spec_is_alphanumeric(c: char) -> bool;

/// Wraps `char::is_alphanumeric`. Beyond the name, the std documentation's
/// Unicode definition gives, for ASCII, exactly the letters and digits.
#[verifier::external_body]
fn is_alphanumeric(c: char) -> (b: bool)
    ensures
        b == spec_is_alphanumeric(c),
        (c as u32) < 128 ==> (b <==> (('a' <= c && c <= 'z') || ('A' <= c && c <= 'Z') || ('0' <= c
            && c <= '9'))),
{
    c.is_alphanumeric()
}

/// A branch name safe to hand to `git`: letters, digits, `-`, `_`, `.`, `/`.
pub open spec fn safe_branch(b: Seq<char>) -> bool {
    forall|i: int|
        0 <= i < b.len() ==> spec_is_alphanumeric(#[trigger] b[i]) || b[i] == '-' || b[i] == '_'
            || b[i] == '.' || b[i] == '/'
}

/// Whether `b` is a safe branch name.
pub fn is_safe_branch(b: &str) -> (r: bool)
    ensures
        r == safe_branch(b@),
{
    let c = chars_of(b);
    let mut i: usize = 0;
    while i < c.len()
        invariant
            i <= c.len(),
            c@ == b@,
            forall|k: int|
                0 <= k < i ==> spec_is_alphanumeric(#[trigger] c@[k]) || c@[k] == '-' || c@[k] == '_'
                    || c@[k] == '.' || c@[k] == '/',
        decreases c.len() - i,
    {
        let ch = c[i];
        if !(is_alphanumeric(ch) || ch == '-' || ch == '_' || ch == '.' || ch == '/') {
            return false;
        }
        i = i + 1;
    }
    true
}

/// The extensions indexed when none are given.
pub open spec fn default_extensions() -> Seq<Seq<char>> {
    seq![
        "rs"@, "py"@, "js"@, "ts"@, "go"@, "c"@, "cpp"@, "h"@, "java"@, "swift"@, "kt"@, "sh"@,
        "pl"@, "rb"@, "php"@, "md"@, "txt"@, "rst"@, "adoc"@, "toml"@, "json"@, "yaml"@, "yml"@,
        "ini"@, "conf"@,
    ]
}

/// The path parts skipped when none are given.
pub open spec fn default_excludes() -> Seq<Seq<char>> {
    seq![
        ".git"@, ".github"@, "target"@, "node_modules"@, "dist"@, "build"@, "vendor"@, "bin"@,
        "obj"@,
    ]
}

/// Files larger than this are not indexed.
pub const MAX_FILE_SIZE_BYTES: u64 = 262144;

/// What ingesting a repository will do.
#[derive(Debug, Clone)]
pub struct RepoPlan {
    pub owner: String,
    pub repo: String,
    /// `https://github.com/{owner}/{repo}`.
    pub base_url: String,
    /// The branch asked for, else the one the URL names.
    pub branch: Option<String>,
    /// The arguments of the `git` call, up to the checkout directory.
    pub git_args: Vec<String>,
    pub include_exts: Vec<String>,
    pub exclude_paths: Vec<String>,
}

/// Spec form of what a plan holds.
pub struct RepoPlanView {
    pub owner: Seq<char>,
    pub repo: Seq<char>,
    pub base_url: Seq<char>,
    pub branch: Option<Seq<char>>,
    pub git_args: Seq<Seq<char>>,
    pub include_exts: Seq<Seq<char>>,
    pub exclude_paths: Seq<Seq<char>>,
}

impl View for RepoPlan {
    type V = RepoPlanView;

    open spec fn view(&self) -> RepoPlanView {
        RepoPlanView {
            owner: self.owner@,
            repo: self.repo@,
            base_url: self.base_url@,
            branch: opt_view(self.branch),
            git_args: str_views(self.git_args@),
            include_exts: str_views(self.include_exts@),
            exclude_paths: str_views(self.exclude_paths@),
        }
    }
}

/// The plan for ingesting `url`: a shallow clone of the repository, of the
/// chosen branch when there is one (refused when its name is unsafe); the
/// given extension and exclusion lists, or the defaults.
pub open spec fn repo_plan(
    url: Seq<char>,
    branch: Option<Seq<char>>,
    include_exts: Option<Seq<Seq<char>>>,
    exclude_paths: Option<Seq<Seq<char>>>,
) -> Result<RepoPlanView, ErrorView> {
    match github_parts(url) {
        None => Err(ErrorView::CrawlFailed { url, reason: "Invalid GitHub repository URL"@ }),
        Some((owner, repo, parsed)) => {
            let b = if branch is Some {
                branch
            } else {
                parsed
            };
            let base = "https://github.com/"@ + owner + "/"@ + repo;
            if b is Some && !safe_branch(b->0) {
                Err(ErrorView::CrawlFailed { url, reason: "Invalid/unsafe branch name: "@ + b->0 })
            } else {
                Ok(
                    RepoPlanView {
                        owner,
                        repo,
                        base_url: base,
                        branch: b,
                        git_args: seq!["clone"@, "--depth"@, "1"@] + (if b is Some {
                            seq!["--branch"@, b->0]
                        } else {
                            Seq::empty()
                        }) + seq![base],
                        include_exts: match include_exts {
                            Some(e) => e,
                            None => default_extensions(),
                        },
                        exclude_paths: match exclude_paths {
                            Some(e) => e,
                            None => default_excludes(),
                        },
                    },
                )
            }
        },
    }
}

fn default_extension_list() -> (v: Vec<String>)
    ensures
        str_views(v@) == default_extensions(),
{
    let mut v: Vec<String> = Vec::new();
    v.push(owned("rs"));
    v.push(owned("py"));
    v.push(owned("js"));
    v.push(owned("ts"));
    v.push(owned("go"));
    v.push(owned("c"));
    v.push(owned("cpp"));
    v.push(owned("h"));
    v.push(owned("java"));
    v.push(owned("swift"));
    v.push(owned("kt"));
    v.push(owned("sh"));
    v.push(owned("pl"));
    v.push(owned("rb"));
    v.push(owned("php"));
    v.push(owned("md"));
    v.push(owned("txt"));
    v.push(owned("rst"));
    v.push(owned("adoc"));
    v.push(owned("toml"));
    v.push(owned("json"));
    v.push(owned("yaml"));
    v.push(owned("yml"));
    v.push(owned("ini"));
    v.push(owned("conf"));
    assert(str_views(v@) =~= default_extensions());
    v
}

fn default_exclude_list() -> (v: Vec<String>)
    ensures
        str_views(v@) == default_excludes(),
{
    let mut v: Vec<String> = Vec::new();
    v.push(owned(".git"));
    v.push(owned(".github"));
    v.push(owned("target"));
    v.push(owned("node_modules"));
    v.push(owned("dist"));
    v.push(owned("build"));
    v.push(owned("vendor"));
    v.push(owned("bin"));
    v.push(owned("obj"));
    assert(str_views(v@) =~= default_excludes());
    v
}

/// Plans the ingestion of the repository `url` names.
pub fn plan_repo(
    url: &str,
    branch: Option<String>,
    include_exts: Option<Vec<String>>,
    exclude_paths: Option<Vec<String>>,
) -> (r: Result<RepoPlan, SearchXyzError>)
    ensures
        match (r, repo_plan(
            url@,
            opt_view(branch),
            match include_exts {
                Some(v) => Some(str_views(v@)),
                None => None,
            },
            match exclude_paths {
                Some(v) => Some(str_views(v@)),
                None => None,
            },
        )) {
            (Ok(p), Ok(v)) => p@ == v,
            (Err(e), Err(v)) => e@ == v,
            _ => false,
        },
{
    let (owner, repo, parsed) = match parse_github_url(url) {
        None => {
            return Err(
                SearchXyzError::CrawlFailed { url: owned(url), reason: owned("Invalid GitHub repository URL") },
            );
        },
        Some(t) => t,
    };
    let b = match branch {
        Some(b) => Some(b),
        None => parsed,
    };
    let mut base: Vec<char> = Vec::new();
    push_str(&mut base, "https://github.com/");
    push_str(&mut base, owner.as_str());
    push_str(&mut base, "/");
    push_str(&mut base, repo.as_str());
    let base_url = string_from_chars(base.as_slice());
    let mut args: Vec<String> = Vec::new();
    args.push(owned("clone"));
    args.push(owned("--depth"));
    args.push(owned("1"));
    match &b {
        Some(name) => {
            if !is_safe_branch(name.as_str()) {
                let mut o: Vec<char> = Vec::new();
                push_str(&mut o, "Invalid/unsafe branch name: ");
                push_str(&mut o, name.as_str());
                return Err(SearchXyzError::CrawlFailed { url: owned(url), reason: string_from_chars(o.as_slice()) });
            }
            args.push(owned("--branch"));
            args.push(name.clone());
        },
        None => {},
    }
    args.push(base_url.clone());
    let ghost bv = opt_view(b);
    assert(str_views(args@) =~= seq!["clone"@, "--depth"@, "1"@] + (if bv is Some {
        seq!["--branch"@, bv->0]
    } else {
        Seq::<Seq<char>>::empty()
    }) + seq![base_url@]);
    let wanted = match include_exts {
        Some(v) => v,
        None => default_extension_list(),
    };
    let exclude = match exclude_paths {
        Some(v) => v,
        None => default_exclude_list(),
    };
    Ok(RepoPlan { owner, repo, base_url, branch: b, git_args: args, include_exts: wanted, exclude_paths: exclude })
}

/// A step of ingestion that failed outside.
#[derive(Debug)]
pub enum RepoFailure {
    /// `git` could not be started; the error's text.
    Spawn(String),
    /// `git clone` failed; what it wrote to standard error.
    Clone(String),
    /// The checkout could not be walked; the error's text.
    Traverse(String),
}

/// The crawl failure each failed step is reported as.
pub open spec fn repo_failure_error(url: Seq<char>, f: RepoFailure) -> ErrorView {
    ErrorView::CrawlFailed {
        url,
        reason: match f {
            RepoFailure::Spawn(e) => "Failed to spawn git command: "@ + e@,
            RepoFailure::Clone(e) => "git clone failed: "@ + trim(e@),
            RepoFailure::Traverse(e) => "Directory traversal failed: "@ + e@,
        },
    }
}

/// The error a failed ingestion step of `url` is reported as.
pub fn repo_failure(url: &str, f: RepoFailure) -> (e: SearchXyzError)
    ensures
        e@ == repo_failure_error(url@, f),
{
    let mut o: Vec<char> = Vec::new();
    match f {
        RepoFailure::Spawn(e) => {
            push_str(&mut o, "Failed to spawn git command: ");
            push_str(&mut o, e.as_str());
        },
        RepoFailure::Clone(e) => {
            push_str(&mut o, "git clone failed: ");
            let t = trim_str(e.as_str());
            push_str(&mut o, t.as_str());
        },
        RepoFailure::Traverse(e) => {
            push_str(&mut o, "Directory traversal failed: ");
            push_str(&mut o, e.as_str());
        },
    }
    SearchXyzError::CrawlFailed { url: owned(url), reason: string_from_chars(o.as_slice()) }
}

/// A path is skipped when one of its parts is an excluded name.
pub open spec fn excluded(parts: Seq<Seq<char>>, exclude: Seq<Seq<char>>) -> bool {
    exists|i: int, j: int| 0 <= i < parts.len() && 0 <= j < exclude.len() && parts[i] == exclude[j]
}

/// Whether a path with these parts is excluded.
pub fn is_excluded(parts: &Vec<String>, exclude: &Vec<String>) -> (b: bool)
    ensures
        b == excluded(str_views(parts@), str_views(exclude@)),
{
    let mut i: usize = 0;
    while i < parts.len()
        invariant
            i <= parts.len(),
            forall|a: int, k: int|
                0 <= a < i && 0 <= k < exclude.len() ==> str_views(parts@)[a] != str_views(exclude@)[k],
        decreases parts.len() - i,
    {
        let pc = chars_of(parts[i].as_str());
        let mut j: usize = 0;
        while j < exclude.len()
            invariant
                i < parts.len(),
                j <= exclude.len(),
                pc@ == parts@[i as int]@,
                forall|a: int, k: int|
                    0 <= a < i && 0 <= k < exclude.len() ==> str_views(parts@)[a] != str_views(exclude@)[k],
                forall|k: int| 0 <= k < j ==> str_views(parts@)[i as int] != str_views(exclude@)[k],
            decreases exclude.len() - j,
        {
            let ec = chars_of(exclude[j].as_str());
            if chars_eq(&pc, &ec) {
                assert(str_views(parts@)[i as int] == str_views(exclude@)[j as int]);
                return true;
            }
            j = j + 1;
        }
        i = i + 1;
    }
    false
}

/// A file is indexed when its size (if known) is within the limit and its
/// extension matches one of the wanted ones, ignoring case.
pub open spec fn wanted_file(ext: Option<Seq<char>>, size: Option<u64>, wanted: Seq<Seq<char>>) -> bool {
    &&& !(size is Some && size->0 > MAX_FILE_SIZE_BYTES)
    &&& ext is Some
    &&& exists|i: int| 0 <= i < wanted.len() && spec_lowercase(wanted[i]) == spec_lowercase(ext->0)
}

/// Whether a file with this extension and size is indexed.
pub fn wants_file(ext: Option<&str>, size: Option<u64>, wanted: &Vec<String>) -> (b: bool)
    ensures
        b == wanted_file(
            match ext {
                Some(e) => Some(e@),
                None => None,
            },
            size,
            str_views(wanted@),
        ),
{
    match size {
        Some(s) => {
            if s > MAX_FILE_SIZE_BYTES {
                return false;
            }
        },
        None => {},
    }
    let e = match ext {
        None => return false,
        Some(e) => e,
    };
    let el = chars_of(to_lowercase(e).as_str());
    let mut i: usize = 0;
    while i < wanted.len()
        invariant
            i <= wanted.len(),
            el@ == spec_lowercase(e@),
            ext == Some(e),
            !(size is Some && size->0 > MAX_FILE_SIZE_BYTES),
            forall|k: int| 0 <= k < i ==> spec_lowercase(str_views(wanted@)[k]) != spec_lowercase(e@),
        decreases wanted.len() - i,
    {
        let il = chars_of(to_lowercase(wanted[i].as_str()).as_str());
        if chars_eq(&il, &el) {
            assert(spec_lowercase(str_views(wanted@)[i as int]) == spec_lowercase(e@));
            return true;
        }
        i = i + 1;
    }
    false
}

/// A repository being ingested: what the summary needs so far.
pub struct RepoIngest {
    pub owner: String,
    pub repo: String,
    pub base_url: String,
    /// The branch shown in links and the summary (`main` when none was chosen).
    pub branch: String,
    pub count: usize,
    pub readme: String,
    /// One markdown list line per indexed file.
    pub files: String,
}

/// The document a repository file becomes.
pub open spec fn file_document(
    base_url: Seq<char>,
    branch: Seq<char>,
    repo: Seq<char>,
    rel_path: Seq<char>,
    ext: Seq<char>,
    content: Seq<char>,
) -> ExtractedView {
    ExtractedView {
        url: base_url + "/blob/"@ + branch + "/"@ + rel_path,
        title: rel_path + " ("@ + repo + ")"@,
        description: "Source code file from "@ + repo + " repository"@,
        content_markdown: "### File: `"@ + rel_path + "`\n\n```"@ + ext + "\n"@ + content + "\n```"@,
        links: Seq::empty(),
    }
}

impl RepoIngest {
    /// Starts ingesting the planned repository.
    pub fn new(plan: &RepoPlan) -> (s: Self)
        ensures
            s.owner@ == plan.owner@,
            s.repo@ == plan.repo@,
            s.base_url@ == plan.base_url@,
            s.branch@ == (match opt_view(plan.branch) {
                Some(b) => b,
                None => "main"@,
            }),
            s.count == 0,
            s.readme@.len() == 0,
            s.files@.len() == 0,
    {
        RepoIngest {
            owner: plan.owner.clone(),
            repo: plan.repo.clone(),
            base_url: plan.base_url.clone(),
            branch: match &plan.branch {
                Some(b) => b.clone(),
                None => owned("main"),
            },
            count: 0,
            readme: String::new(),
            files: String::new(),
        }
    }

    /// Takes in one file of the checkout: `rel_path` inside it, its
    /// extension, file name and whether it sits at the top, and its text.
    /// Gives the document to index; counts the file, lists it, and keeps a
    /// top-level README as the repository's.
    pub fn add_file(
        &mut self,
        rel_path: &str,
        ext: Option<&str>,
        file_name: &str,
        at_root: bool,
        content: &str,
    ) -> (doc: ExtractedContent)
        requires
            old(self).count < usize::MAX,
        ensures
            doc@ == file_document(
                old(self).base_url@,
                old(self).branch@,
                old(self).repo@,
                rel_path@,
                match ext {
                    Some(e) => e@,
                    None => "txt"@,
                },
                content@,
            ),
            final(self).count == old(self).count + 1,
            final(self).files@ == old(self).files@ + "- [`"@ + rel_path@ + "`]("@ + doc.url@ + ")\n"@,
            final(self).readme@ == (if at_root && spec_lowercase(file_name@) == "readme.md"@ {
                content@
            } else {
                old(self).readme@
            }),
            final(self).owner == old(self).owner,
            final(self).repo == old(self).repo,
            final(self).base_url == old(self).base_url,
            final(self).branch == old(self).branch,
    {
        let mut u: Vec<char> = Vec::new();
        push_str(&mut u, self.base_url.as_str());
        push_str(&mut u, "/blob/");
        push_str(&mut u, self.branch.as_str());
        push_str(&mut u, "/");
        push_str(&mut u, rel_path);
        let url = string_from_chars(u.as_slice());
        let mut t: Vec<char> = Vec::new();
        push_str(&mut t, rel_path);
        push_str(&mut t, " (");
        push_str(&mut t, self.repo.as_str());
        push_str(&mut t, ")");
        let mut d: Vec<char> = Vec::new();
        push_str(&mut d, "Source code file from ");
        push_str(&mut d, self.repo.as_str());
        push_str(&mut d, " repository");
        let mut m: Vec<char> = Vec::new();
        push_str(&mut m, "### File: `");
        push_str(&mut m, rel_path);
        push_str(&mut m, "`\n\n```");
        match ext {
            Some(e) => push_str(&mut m, e),
            None => push_str(&mut m, "txt"),
        }
        push_str(&mut m, "\n");
        push_str(&mut m, content);
        push_str(&mut m, "\n```");
        let mut f: Vec<char> = chars_of(self.files.as_str());
        push_str(&mut f, "- [`");
        push_str(&mut f, rel_path);
        push_str(&mut f, "`](");
        push_str(&mut f, url.as_str());
        push_str(&mut f, ")\n");
        self.files = string_from_chars(f.as_slice());
        if at_root {
            let lower = chars_of(to_lowercase(file_name).as_str());
            if chars_eq(&lower, &chars_of("readme.md")) {
                self.readme = owned(content);
            }
        }
        self.count = self.count + 1;
        let links: Vec<String> = Vec::new();
        assert(str_views(links@) =~= Seq::<Seq<char>>::empty());
        ExtractedContent {
            url,
            title: string_from_chars(t.as_slice()),
            description: string_from_chars(d.as_slice()),
            content_markdown: string_from_chars(m.as_slice()),
            links,
        }
    }

    /// The summary handed back once every file is in: the repository, its
    /// branch and file count, its README when it has one, and the file list.
    pub fn summary(&self) -> (s: String)
        ensures
            s@ == "# Codebase Ingested: "@ + self.owner@ + "/"@ + self.repo@ + "\n\n**Source:** "@
                + self.base_url@ + "\n**Branch:** "@ + self.branch@ + "\n**Files Indexed:** "@
                + decimal(self.count as nat)
                + " matching files successfully parsed and added to search index.\n\n"@ + (if self.readme@.len()
                > 0 {
                "## Repository README\n\n"@ + self.readme@ + "\n\n---\n\n"@
            } else {
                Seq::empty()
            }) + "## Ingested Codebase Files\n\n"@ + self.files@,
    {
        let mut o: Vec<char> = Vec::new();
        push_str(&mut o, "# Codebase Ingested: ");
        push_str(&mut o, self.owner.as_str());
        push_str(&mut o, "/");
        push_str(&mut o, self.repo.as_str());
        push_str(&mut o, "\n\n**Source:** ");
        push_str(&mut o, self.base_url.as_str());
        push_str(&mut o, "\n**Branch:** ");
        push_str(&mut o, self.branch.as_str());
        push_str(&mut o, "\n**Files Indexed:** ");
        push_decimal(&mut o, self.count as u64);
        push_str(&mut o, " matching files successfully parsed and added to search index.\n\n");
        let ghost before = o@;
        if !self.readme.as_str().is_empty() {
            push_str(&mut o, "## Repository README\n\n");
            push_str(&mut o, self.readme.as_str());
            push_str(&mut o, "\n\n---\n\n");
        }
        push_str(&mut o, "## Ingested Codebase Files\n\n");
        push_str(&mut o, self.files.as_str());
        string_from_chars(o.as_slice())
    }
}

} // verus!
