//! Decisions taken while installing a tool: what to download, from where,
//! which release and file to pick, how to unpack it, and what to tell the
//! user. The downloads, the unpacking and the processes are done by the
//! caller.
use vstd::prelude::*;
use crate::text::{cat, cat3, chars_of, contains, contains_exec, ends_with, ends_with_exec};
use crate::text::{eq_str, find_char_exec, find_char_from, find_from, find_from_exec, join};
use crate::text::{lines, lines_exec, lower, lower_chars, push_arg, push_str, starts_with};
use crate::text::{starts_with_exec, string_of_range, trim, trim_str, views};
use crate::text::{lemma_find_char_from_bounds, lemma_find_from_bounds, to_lowercase, unicode_lower};
use crate::tools::{exe_name_of, lookup, spec, Layout, ToolKind, ToolSpec};

verus! {

// ------------------------------------------------------------------ dispatch

/// What the «Instalar» button does for a tool that can be installed.
#[derive(Clone, Copy, Debug, PartialEq, Eq)]
pub enum InstallAction {
    /// `pip install` of a package in the private environment.
    Python { package: &'static str },
    /// Download of a GitHub release asset.
    Github { repo: &'static str, asset: &'static str, tag: &'static str },
    /// Download of the first matching link of a web page.
    Web { page: &'static str, base: &'static str, contains: &'static str },
}

/// The action for tool `id`, or the message that explains why there is none.
pub open spec fn install_action_spec(id: Seq<char>) -> Result<InstallAction, Seq<char>> {
    match lookup(id) {
        None => Err("Herramienta desconocida: "@ + id),
        Some(t) => match t.kind {
            ToolKind::Bundled => Err(t.name@ + " ya viene incluida con CHD Studio"@),
            ToolKind::External { site } => Err(
                t.name@ + " viene dentro de otro programa y hay que instalarlo aparte: "@ + site@,
            ),
            ToolKind::Python { package } => Ok(InstallAction::Python { package }),
            ToolKind::Github { repo, asset, tag } => Ok(InstallAction::Github { repo, asset, tag }),
            ToolKind::Web { page, base, contains } => Ok(
                InstallAction::Web { page, base, contains },
            ),
        },
    }
}

/// Single entry point of the «Instalar» button: what to do for tool `id`.
pub fn install_action(id: &str) -> (r: Result<InstallAction, String>)
    ensures
        match r {
            Ok(a) => install_action_spec(id@) == Ok::<InstallAction, Seq<char>>(a),
            Err(e) => install_action_spec(id@) == Err::<InstallAction, Seq<char>>(e@),
        },
{
    let t = match spec(id) {
        Some(t) => t,
        None => return Err(cat("Herramienta desconocida: ", id)),
    };
    match t.kind {
        ToolKind::Bundled => Err(cat(t.name, " ya viene incluida con CHD Studio")),
        ToolKind::External { site } => Err(
            cat3(t.name, " viene dentro de otro programa y hay que instalarlo aparte: ", site),
        ),
        ToolKind::Python { package } => Ok(InstallAction::Python { package }),
        ToolKind::Github { repo, asset, tag } => Ok(InstallAction::Github { repo, asset, tag }),
        ToolKind::Web { page, base, contains } => Ok(InstallAction::Web { page, base, contains }),
    }
}

/// Message shown once an installation finished; `result` is the release tag
/// (GitHub) or the downloaded file name (web).
pub open spec fn install_done_spec(name: Seq<char>, action: InstallAction, result: Seq<char>) -> Seq<
    char,
> {
    match action {
        InstallAction::Python { .. } => name + " instalado con pip"@,
        InstallAction::Github { .. } => name + " "@ + result + " descargado"@,
        InstallAction::Web { .. } => name + " descargado ("@ + result + ")"@,
    }
}

/// Message shown once an installation finished.
pub fn install_done_message(name: &str, action: &InstallAction, result: &str) -> (r: String)
    ensures
        r@ == install_done_spec(name@, *action, result@),
{
    match action {
        InstallAction::Python { .. } => cat(name, " instalado con pip"),
        InstallAction::Github { .. } => {
            let mut r = cat3(name, " ", result);
            r.append(" descargado");
            r
        },
        InstallAction::Web { .. } => {
            let mut r = cat3(name, " descargado (", result);
            r.append(")");
            r
        },
    }
}

// ------------------------------------------------------------------ python

/// `pip install --upgrade --disable-pip-version-check <package>`
pub fn pip_install_args(package: &str) -> (r: Vec<String>)
    ensures
        views(r@) == seq!["install"@, "--upgrade"@, "--disable-pip-version-check"@, package@],
{
    let mut a: Vec<String> = Vec::new();
    push_str(&mut a, "install");
    push_str(&mut a, "--upgrade");
    push_str(&mut a, "--disable-pip-version-check");
    push_str(&mut a, package);
    assert(views(a@) =~= seq![
        "install"@,
        "--upgrade"@,
        "--disable-pip-version-check"@,
        package@,
    ]);
    a
}

/// The last (at most) four lines of a text.
pub open spec fn last_lines(ls: Seq<Seq<char>>) -> Seq<Seq<char>> {
    if ls.len() <= 4 {
        ls
    } else {
        ls.skip(ls.len() - 4)
    }
}

/// Error shown when pip fails: its last four lines, joined by spaces.
pub open spec fn pip_failure_spec(out: Seq<char>) -> Seq<char> {
    "pip fallo: "@ + join(last_lines(lines(out)), " "@)
}

/// Error shown when pip fails.
pub fn pip_failure_message(out: &str) -> (r: String)
    ensures
        r@ == pip_failure_spec(out@),
{
    let ls = lines_exec(&chars_of(out));
    let n = ls.len();
    let from: usize = if n <= 4 {
        0
    } else {
        n - 4
    };
    let ghost tail = views(ls@).skip(from as int);
    assert(tail =~= last_lines(lines(out@)));
    let mut r = "pip fallo: ".to_owned();
    let mut i = from;
    while i < n
        invariant
            from <= i <= n == ls.len(),
            tail == views(ls@).skip(from as int),
            r@ == "pip fallo: "@ + join(tail.take(i - from), " "@),
        decreases n - i,
    {
        if i > from {
            r.append(" ");
        }
        r.append(ls[i].as_str());
        proof {
            let k = i + 1 - from;
            assert(tail.take(k).drop_last() =~= tail.take(k - 1));
            assert(tail.take(k).last() == ls@[i as int]@);
            if k == 1 {
                assert(join(tail.take(k), " "@) == tail.take(k)[0]);
                assert(join(tail.take(0), " "@) =~= Seq::<char>::empty());
            }
        }
        i += 1;
    }
    assert(tail.take(n - from) =~= tail);
    r
}

/// `python -m venv <folder>`
pub fn venv_create_args(venv_dir: &str) -> (r: Vec<String>)
    ensures
        views(r@) == seq!["-m"@, "venv"@, venv_dir@],
{
    let mut a: Vec<String> = Vec::new();
    push_str(&mut a, "-m");
    push_str(&mut a, "venv");
    push_str(&mut a, venv_dir);
    assert(views(a@) =~= seq!["-m"@, "venv"@, venv_dir@]);
    a
}

/// Error shown when the private environment could not be created.
pub fn venv_failure_message(out: &str) -> (r: String)
    ensures
        r@ == "No se pudo crear el entorno de Python: "@ + trim(out@),
{
    let t = trim_str(out);
    cat("No se pudo crear el entorno de Python: ", t.as_str())
}

// ------------------------------------------------------------------ github

/// API address of the release list of `repo`: only the latest release when
/// no tag prefix is asked for, otherwise the first hundred.
pub fn releases_url(repo: &str, tag_prefix: &str) -> (r: String)
    ensures
        r@ == (if tag_prefix@.len() == 0 {
            "https://api.github.com/repos/"@ + repo@ + "/releases/latest"@
        } else {
            "https://api.github.com/repos/"@ + repo@ + "/releases?per_page=100"@
        }),
{
    if tag_prefix.is_empty() {
        cat3("https://api.github.com/repos/", repo, "/releases/latest")
    } else {
        cat3("https://api.github.com/repos/", repo, "/releases?per_page=100")
    }
}

/// First index at or after `i` whose tag starts with `prefix`.
pub open spec fn first_prefixed(tags: Seq<Seq<char>>, prefix: Seq<char>, i: int) -> Option<int>
    decreases tags.len() - i,
{
    if i < 0 || i >= tags.len() {
        None
    } else if starts_with(tags[i], prefix) {
        Some(i)
    } else {
        first_prefixed(tags, prefix, i + 1)
    }
}

/// The release to install among those listed (newest first): the first
/// whose tag starts with `prefix`.
pub fn pick_release(tags: &Vec<String>, prefix: &str) -> (r: Option<usize>)
    ensures
        match r {
            Some(i) => first_prefixed(views(tags@), prefix@, 0) == Some(i as int),
            None => first_prefixed(views(tags@), prefix@, 0) is None,
        },
{
    let p = chars_of(prefix);
    let mut i: usize = 0;
    while i < tags.len()
        invariant
            p@ == prefix@,
            i <= tags.len(),
            views(tags@).len() == tags@.len(),
            first_prefixed(views(tags@), prefix@, 0) == first_prefixed(
                views(tags@),
                prefix@,
                i as int,
            ),
        decreases tags.len() - i,
    {
        assert(views(tags@)[i as int] == tags@[i as int]@);
        if starts_with_exec(&chars_of(tags[i].as_str()), &p) {
            return Some(i);
        }
        i += 1;
    }
    None
}

/// Error shown when no release carries the asked tag prefix.
pub fn no_release_message(repo: &str, prefix: &str) -> (r: String)
    ensures
        r@ == repo@ + " no tiene ninguna release que empiece por «"@ + prefix@ + "»"@,
{
    let mut r = cat3(repo, " no tiene ninguna release que empiece por «", prefix);
    r.append("»");
    r
}

/// First index at or after `i` whose text contains `needle`.
pub open spec fn first_containing(hays: Seq<Seq<char>>, needle: Seq<char>, i: int) -> Option<int>
    decreases hays.len() - i,
{
    if i < 0 || i >= hays.len() {
        None
    } else if contains(hays[i], needle) {
        Some(i)
    } else {
        first_containing(hays, needle, i + 1)
    }
}

/// The texts of `s` lower-cased as `str::to_lowercase` does.
pub open spec fn lowered(s: Seq<Seq<char>>) -> Seq<Seq<char>> {
    s.map_values(|t: Seq<char>| unicode_lower(t))
}

/// The first of `hays` that contains `needle`.
pub fn first_containing_exec(hays: &Vec<String>, needle: &str) -> (r: Option<usize>)
    ensures
        match r {
            Some(i) => first_containing(views(hays@), needle@, 0) == Some(i as int),
            None => first_containing(views(hays@), needle@, 0) is None,
        },
{
    let nv = chars_of(needle);
    let mut i: usize = 0;
    while i < hays.len()
        invariant
            i <= hays.len(),
            views(hays@).len() == hays@.len(),
            nv@ == needle@,
            first_containing(views(hays@), needle@, 0) == first_containing(
                views(hays@),
                needle@,
                i as int,
            ),
        decreases hays.len() - i,
    {
        assert(views(hays@)[i as int] == hays@[i as int]@);
        if contains_exec(&chars_of(hays[i].as_str()), &nv) {
            return Some(i);
        }
        i += 1;
    }
    None
}

/// The asset of a release to download: the first whose name contains
/// `fragment`, both lower-cased as `str::to_lowercase` does.
pub fn pick_asset(names: &Vec<String>, fragment: &str) -> (r: Option<usize>)
    ensures
        match r {
            Some(i) => first_containing(lowered(views(names@)), unicode_lower(fragment@), 0) == Some(
                i as int,
            ),
            None => first_containing(lowered(views(names@)), unicode_lower(fragment@), 0) is None,
        },
{
    let mut low: Vec<String> = Vec::new();
    let mut i: usize = 0;
    while i < names.len()
        invariant
            i <= names.len(),
            views(low@) == lowered(views(names@)).take(i as int),
        decreases names.len() - i,
    {
        let l = to_lowercase(names[i].as_str());
        let ghost before = views(low@);
        low.push(l);
        assert(views(low@) =~= before.push(l@));
        assert(lowered(views(names@)).take(i + 1) =~= lowered(views(names@)).take(i as int).push(
            unicode_lower(names@[i as int]@),
        ));
        i += 1;
    }
    assert(lowered(views(names@)).take(names.len() as int) =~= lowered(views(names@)));
    let needle = to_lowercase(fragment);
    first_containing_exec(&low, needle.as_str())
}

/// Error shown when the release has no asset with the fragment.
pub fn no_asset_message(tag: &str, repo: &str, fragment: &str) -> (r: String)
    ensures
        r@ == "La release "@ + tag@ + " de "@ + repo@ + " no trae ningun archivo que contenga «"@
            + fragment@ + "»"@,
{
    let mut r = cat3("La release ", tag, " de ");
    r.append(repo);
    r.append(" no trae ningun archivo que contenga «");
    r.append(fragment);
    r.append("»");
    r
}

// ------------------------------------------------------------------ archives

/// How a download is unpacked.
#[derive(PartialEq, Eq, Structural, Clone, Copy, Debug)]
pub enum ArchiveKind {
    Zip,
    TarGz,
    SevenZip,
    /// A bare executable, stored under the name that locating looks for.
    Plain,
}

pub open spec fn archive_kind_spec(name: Seq<char>) -> ArchiveKind {
    let l = lower(name);
    if ends_with(l, ".zip"@) {
        ArchiveKind::Zip
    } else if ends_with(l, ".tar.gz"@) || ends_with(l, ".tgz"@) {
        ArchiveKind::TarGz
    } else if ends_with(l, ".7z"@) {
        ArchiveKind::SevenZip
    } else {
        ArchiveKind::Plain
    }
}

/// How a downloaded file is unpacked, from its name (ASCII case ignored).
pub fn archive_kind(name: &str) -> (r: ArchiveKind)
    ensures
        r == archive_kind_spec(name@),
{
    let l = lower_chars(&chars_of(name));
    if ends_with_exec(&l, &chars_of(".zip")) {
        ArchiveKind::Zip
    } else if ends_with_exec(&l, &chars_of(".tar.gz")) || ends_with_exec(&l, &chars_of(".tgz")) {
        ArchiveKind::TarGz
    } else if ends_with_exec(&l, &chars_of(".7z")) {
        ArchiveKind::SevenZip
    } else {
        ArchiveKind::Plain
    }
}

/// Whether a file left after unpacking a zip is itself a gzip tarball (some
/// projects put a `.tar.gz` inside their zip).
pub fn is_tarball_name(name: &str) -> (r: bool)
    ensures
        r == (ends_with(lower(name@), ".tar.gz"@) || ends_with(lower(name@), ".tgz"@)),
{
    let l = lower_chars(&chars_of(name));
    ends_with_exec(&l, &chars_of(".tar.gz")) || ends_with_exec(&l, &chars_of(".tgz"))
}

/// Name under which a bare downloaded executable is stored: the name that
/// locating looks for when the tool is registered, `fallback` otherwise.
pub fn download_name(id: &str, fallback: &str, l: &Layout) -> (r: String)
    ensures
        r@ == (match lookup(id@) {
            Some(t) => exe_name_of(*l, t.exe@),
            None => fallback@,
        }),
{
    match spec(id) {
        Some(t) => l.exe_name(t.exe),
        None => fallback.to_owned(),
    }
}

/// Temporary file name of a downloaded `.7z`.
pub fn temp_archive_name(name: &str) -> (r: String)
    ensures
        r@ == "chd-studio-"@ + name@,
{
    cat("chd-studio-", name)
}

/// `tar -xf <archive> -C <dest>`: the system tar (libarchive on Windows 10
/// and later) reads 7-Zip.
pub fn tar_extract_args(archive: &str, dest: &str) -> (r: Vec<String>)
    ensures
        views(r@) == seq!["-xf"@, archive@, "-C"@, dest@],
{
    let mut a: Vec<String> = Vec::new();
    push_str(&mut a, "-xf");
    push_str(&mut a, archive);
    push_str(&mut a, "-C");
    push_str(&mut a, dest);
    assert(views(a@) =~= seq!["-xf"@, archive@, "-C"@, dest@]);
    a
}

/// Error shown when tar could not unpack a `.7z`.
pub fn seven_zip_failure_message(out: &str) -> (r: String)
    ensures
        r@ == "No se pudo descomprimir el .7z: "@ + trim(out@),
{
    let t = trim_str(out);
    cat("No se pudo descomprimir el .7z: ", t.as_str())
}

// ------------------------------------------------------------------ web pages

pub open spec fn href_mark() -> Seq<char> {
    seq!['h', 'r', 'e', 'f', '=', '"']
}

/// The first link target of `html`, from index `from` on, that contains
/// `needle`. The page is cut at every `href="`; each piece after a cut is
/// read up to its first `"` (or its end), and the first such target that
/// contains `needle` is the link.
pub open spec fn first_link_from(html: Seq<char>, needle: Seq<char>, from: int) -> Option<Seq<char>>
    decreases html.len() - from,
{
    match find_from(html, href_mark(), from) {
        None => None,
        Some(k) => {
            let start = k + 6;
            let seg_end = match find_from(html, href_mark(), start) {
                Some(k2) => k2,
                None => html.len() as int,
            };
            let q = match find_char_from(html, '"', start) {
                Some(e) => if e < seg_end {
                    e
                } else {
                    seg_end
                },
                None => seg_end,
            };
            if !(from <= k && start <= q && q <= seg_end && seg_end <= html.len()) {
                None
            } else if contains(html.subrange(start, q), needle) {
                Some(html.subrange(start, q))
            } else {
                first_link_from(html, needle, seg_end)
            }
        },
    }
}

/// Finds in a web page the first link that contains `fragment`. Sites that
/// list their versions do so from newest to oldest, so the first one is the
/// one wanted.
pub fn find_link(html: &str, fragment: &str) -> (r: Option<String>)
    ensures
        match r {
            Some(l) => first_link_from(html@, fragment@, 0) == Some(l@),
            None => first_link_from(html@, fragment@, 0) is None,
        },
{
    let h = chars_of(html);
    let needle = chars_of(fragment);
    let mark = chars_of("href=\"");
    proof {
        reveal_strlit("href=\"");
    }
    assert(mark@ =~= href_mark());
    let mut from: usize = 0;
    loop
        invariant
            from <= h.len(),
            h@ == html@,
            needle@ == fragment@,
            mark@ == href_mark(),
            first_link_from(html@, fragment@, 0) == first_link_from(html@, fragment@, from as int),
        decreases h.len() - from,
    {
        proof {
            lemma_find_from_bounds(h@, mark@, from as int);
        }
        let k = match find_from_exec(&h, &mark, from) {
            Some(k) => k,
            None => return None,
        };
        let start = k + 6;
        proof {
            lemma_find_from_bounds(h@, mark@, start as int);
            lemma_find_char_from_bounds(h@, '"', start as int);
        }
        let seg_end = match find_from_exec(&h, &mark, start) {
            Some(k2) => k2,
            None => h.len(),
        };
        let q = match find_char_exec(&h, '"', start) {
            Some(e) => if e < seg_end {
                e
            } else {
                seg_end
            },
            None => seg_end,
        };
        if contains_exec(&crate::text::chars_of(string_of_range(&h, start, q).as_str()), &needle) {
            return Some(string_of_range(&h, start, q));
        }
        from = seg_end;
    }
}

/// Error shown when the page has no matching link.
pub fn no_link_message(fragment: &str, page: &str) -> (r: String)
    ensures
        r@ == "No se encontro ningun enlace con «"@ + fragment@ + "» en "@ + page@,
{
    let mut r = cat3("No se encontro ningun enlace con «", fragment, "» en ");
    r.append(page);
    r
}

/// Full address of a link: absolute links are kept, root-relative ones are
/// put after `base`, and other relative ones after `base` and a `/`.
pub open spec fn resolve_link_spec(link: Seq<char>, base: Seq<char>) -> Seq<char> {
    if starts_with(link, "http"@) {
        link
    } else if starts_with(link, "/"@) {
        base + link
    } else {
        base + "/"@ + link
    }
}

/// Full address of a link found on a page.
pub fn resolve_link(link: &str, base: &str) -> (r: String)
    ensures
        r@ == resolve_link_spec(link@, base@),
{
    let lv = chars_of(link);
    if starts_with_exec(&lv, &chars_of("http")) {
        link.to_owned()
    } else if starts_with_exec(&lv, &chars_of("/")) {
        cat(base, link)
    } else {
        cat3(base, "/", link)
    }
}

/// What follows the last `/` of `s` (all of `s` when it has none).
pub open spec fn after_last_slash(s: Seq<char>) -> Seq<char>
    decreases s.len(),
{
    if s.len() == 0 {
        s
    } else if s.last() == '/' {
        seq![]
    } else {
        after_last_slash(s.drop_last()).push(s.last())
    }
}

proof fn lemma_after_last_slash_split(s: Seq<char>, i: int)
    requires
        0 <= i <= s.len(),
        forall|j: int| i <= j < s.len() ==> s[j] != '/',
    ensures
        after_last_slash(s) == after_last_slash(s.take(i)) + s.skip(i),
    decreases s.len(),
{
    if i == s.len() {
        assert(s.take(i) =~= s);
        assert(s.skip(i) =~= Seq::<char>::empty());
        assert(after_last_slash(s) + Seq::<char>::empty() =~= after_last_slash(s));
    } else {
        let d = s.drop_last();
        lemma_after_last_slash_split(d, i);
        assert(d.take(i) =~= s.take(i));
        assert(s.skip(i) =~= d.skip(i).push(s.last()));
        assert(after_last_slash(s) == after_last_slash(d).push(s.last()));
        assert((after_last_slash(d.take(i)) + d.skip(i)).push(s.last()) =~= after_last_slash(
            s.take(i),
        ) + s.skip(i));
    }
}

/// File name of a download address: what follows its last `/`. The name
/// carries the version, which is what the interface shows.
pub fn url_file_name(url: &str) -> (r: String)
    ensures
        r@ == after_last_slash(url@),
{
    let v = chars_of(url);
    let mut i = v.len();
    while i > 0 && v[i - 1] != '/'
        invariant
            i <= v.len(),
            forall|j: int| i <= j < v.len() ==> v@[j] != '/',
        decreases i,
    {
        i -= 1;
    }
    proof {
        lemma_after_last_slash_split(v@, i as int);
        if i == 0 {
            assert(v@.take(0) =~= Seq::<char>::empty());
        } else {
            assert(v@.take(i as int).last() == '/');
        }
        assert(v@.subrange(i as int, v.len() as int) =~= v@.skip(i as int));
    }
    string_of_range(&v, i, v.len())
}

proof fn lemma_no_quote_before(s: Seq<char>, from: int, j: int)
    requires
        0 <= from <= j < s.len(),
        match find_char_from(s, '"', from) {
            Some(e) => j < e,
            None => true,
        },
    ensures
        s[j] != '"',
    decreases j - from,
{
    if from < j {
        lemma_no_quote_before(s, from + 1, j);
    }
}

/// The link found on a page contains the fragment asked for, and holds no
/// quote: it is the text of one `href` attribute (or a piece of it).
pub proof fn lemma_link_contains_fragment(html: Seq<char>, needle: Seq<char>, from: int)
    requires
        0 <= from,
    ensures
        first_link_from(html, needle, from) matches Some(l) ==> {
            &&& contains(l, needle)
            &&& forall|j: int| 0 <= j < l.len() ==> l[j] != '"'
        },
    decreases html.len() - from,
{
    match find_from(html, href_mark(), from) {
        None => {},
        Some(k) => {
            let start = k + 6;
            let seg_end = match find_from(html, href_mark(), start) {
                Some(k2) => k2,
                None => html.len() as int,
            };
            let q = match find_char_from(html, '"', start) {
                Some(e) => if e < seg_end {
                    e
                } else {
                    seg_end
                },
                None => seg_end,
            };
            if from <= k && start <= q && q <= seg_end && seg_end <= html.len() {
                let l = html.subrange(start, q);
                assert forall|j: int| 0 <= j < l.len() implies l[j] != '"' by {
                    lemma_no_quote_before(html, start, start + j);
                }
                if !contains(l, needle) {
                    lemma_find_from_bounds(html, href_mark(), start);
                    if seg_end > from {
                        lemma_link_contains_fragment(html, needle, seg_end);
                    }
                }
            }
        },
    }
}

/// The file name of an address holds no `/`.
pub proof fn lemma_file_name_has_no_slash(s: Seq<char>)
    ensures
        forall|i: int| 0 <= i < after_last_slash(s).len() ==> after_last_slash(s)[i] != '/',
    decreases s.len(),
{
    if s.len() > 0 && s.last() != '/' {
        lemma_file_name_has_no_slash(s.drop_last());
        let p = after_last_slash(s.drop_last());
        assert forall|i: int| 0 <= i < p.push(s.last()).len() implies p.push(s.last())[i]
            != '/' by {
            if i < p.len() {
                assert(p.push(s.last())[i] == p[i]);
            }
        }
    }
}

proof fn lemma_first_prefixed_from(tags: Seq<Seq<char>>, prefix: Seq<char>, i: int)
    requires
        0 <= i,
    ensures
        first_prefixed(tags, prefix, i) matches Some(k) ==> i <= k < tags.len() && starts_with(
            tags[k],
            prefix,
        ) && forall|j: int| i <= j < k ==> !starts_with(#[trigger] tags[j], prefix),
        first_prefixed(tags, prefix, i) is None ==> forall|j: int|
            i <= j < tags.len() ==> !starts_with(#[trigger] tags[j], prefix),
    decreases tags.len() - i,
{
    if i < tags.len() && !starts_with(tags[i], prefix) {
        lemma_first_prefixed_from(tags, prefix, i + 1);
    }
}

/// The release picked is the first listed (newest first) whose tag begins
/// with the prefix; none is picked only when no tag begins with it.
pub proof fn lemma_release_is_first_match(tags: Seq<Seq<char>>, prefix: Seq<char>)
    ensures
        first_prefixed(tags, prefix, 0) matches Some(k) ==> 0 <= k < tags.len() && prefix.len()
            <= tags[k].len() && tags[k].subrange(0, prefix.len() as int) == prefix && forall|j: int|
            0 <= j < k ==> !(prefix.len() <= tags[j].len() && #[trigger] tags[j].subrange(
                0,
                prefix.len() as int,
            ) == prefix),
        first_prefixed(tags, prefix, 0) is None ==> forall|j: int|
            0 <= j < tags.len() ==> !(prefix.len() <= tags[j].len() && #[trigger] tags[j].subrange(
                0,
                prefix.len() as int,
            ) == prefix),
{
    lemma_first_prefixed_from(tags, prefix, 0);
    assert forall|j: int| 0 <= j < tags.len() implies #[trigger] tags[j].take(prefix.len() as int)
        == tags[j].subrange(0, prefix.len() as int) by {}
}

proof fn lemma_first_containing_from(hays: Seq<Seq<char>>, needle: Seq<char>, i: int)
    requires
        0 <= i,
    ensures
        first_containing(hays, needle, i) matches Some(k) ==> i <= k < hays.len() && contains(
            hays[k],
            needle,
        ) && forall|j: int| i <= j < k ==> !contains(#[trigger] hays[j], needle),
        first_containing(hays, needle, i) is None ==> forall|j: int|
            i <= j < hays.len() ==> !contains(#[trigger] hays[j], needle),
    decreases hays.len() - i,
{
    if i < hays.len() && !contains(hays[i], needle) {
        lemma_first_containing_from(hays, needle, i + 1);
    }
}

/// The asset picked is the first of the release whose lower-cased name holds
/// the lower-cased fragment; none is picked only when no name holds it.
pub proof fn lemma_asset_is_first_match(names: Seq<Seq<char>>, fragment: Seq<char>)
    ensures
        first_containing(lowered(names), unicode_lower(fragment), 0) matches Some(k) ==> 0 <= k
            < names.len() && (exists|p: int|
            0 <= p && p + unicode_lower(fragment).len() <= unicode_lower(names[k]).len()
                && #[trigger] unicode_lower(names[k]).subrange(
                p,
                p + unicode_lower(fragment).len(),
            ) == unicode_lower(fragment)) && forall|j: int|
            0 <= j < k ==> !contains(unicode_lower(#[trigger] names[j]), unicode_lower(fragment)),
        first_containing(lowered(names), unicode_lower(fragment), 0) is None ==> forall|j: int|
            0 <= j < names.len() ==> !contains(
                unicode_lower(#[trigger] names[j]),
                unicode_lower(fragment),
            ),
{
    let hs = lowered(names);
    let f = unicode_lower(fragment);
    lemma_first_containing_from(hs, f, 0);
    assert(hs.len() == names.len());
    match first_containing(hs, f, 0) {
        Some(k) => {
            assert(hs[k] == unicode_lower(names[k]));
            let p = choose|p: int| crate::text::occurs_at(hs[k], f, p);
            assert(crate::text::occurs_at(hs[k], f, p));
            assert(unicode_lower(names[k]).subrange(p, p + f.len()) == f);
            assert forall|j: int| 0 <= j < k implies !contains(
                unicode_lower(#[trigger] names[j]),
                f,
            ) by {
                assert(hs[j] == unicode_lower(names[j]));
            }
        },
        None => {
            assert forall|j: int| 0 <= j < names.len() implies !contains(
                unicode_lower(#[trigger] names[j]),
                f,
            ) by {
                assert(hs[j] == unicode_lower(names[j]));
            }
        },
    }
}

} // verus!
