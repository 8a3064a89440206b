//! What kind of project a folder holds, from the files in it.

use vstd::prelude::*;
use crate::text::{contains_text, has_infix, lowercase, lowercase_of, same_text, views};

verus! {

/// What was learnt of a project.
#[derive(Debug, Clone)]
pub struct ProjectInfo {
    pub frameworks: Vec<String>,
    pub languages: Vec<String>,
    pub has_tests: bool,
    pub package_manager: Option<String>,
    pub has_typescript: bool,
    pub has_eslint: bool,
    pub has_prettier: bool,
}

impl ProjectInfo {
    /// Nothing learnt yet.
    pub fn new() -> (r: Self)
        ensures
            r.frameworks@.len() == 0,
            r.languages@.len() == 0,
            !r.has_tests,
            r.package_manager is None,
            !r.has_typescript,
            !r.has_eslint,
            !r.has_prettier,
    {
        ProjectInfo {
            frameworks: Vec::new(),
            languages: Vec::new(),
            has_tests: false,
            package_manager: None,
            has_typescript: false,
            has_eslint: false,
            has_prettier: false,
        }
    }
}

/// The package manager a Node project uses, from its lock files: pnpm,
/// then yarn, then bun; npm otherwise.
pub open spec fn package_manager_of(pnpm_lock: bool, yarn_lock: bool, bun_lockb: bool) -> Seq<char> {
    if pnpm_lock {
        "pnpm"@
    } else if yarn_lock {
        "yarn"@
    } else if bun_lockb {
        "bun"@
    } else {
        "npm"@
    }
}

/// The package manager a Node project uses, from which lock files it has.
pub fn detect_node_package_manager(pnpm_lock: bool, yarn_lock: bool, bun_lockb: bool) -> (r: String)
    ensures
        r@ == package_manager_of(pnpm_lock, yarn_lock, bun_lockb),
{
    if pnpm_lock {
        String::from_str("pnpm")
    } else if yarn_lock {
        String::from_str("yarn")
    } else if bun_lockb {
        String::from_str("bun")
    } else {
        String::from_str("npm")
    }
}

/// `list` with `x` added at the end unless it is there already.
pub open spec fn add_once(list: Seq<Seq<char>>, x: Seq<char>) -> Seq<Seq<char>> {
    if list.contains(x) {
        list
    } else {
        list.push(x)
    }
}

fn contains_string(v: &Vec<String>, s: &str) -> (r: bool)
    ensures
        r == views(v@).contains(s@),
{
    let mut i: usize = 0;
    while i < v.len()
        invariant
            i <= v@.len(),
            forall|j: int| 0 <= j < i ==> views(v@)[j] != s@,
        decreases v@.len() - i,
    {
        if same_text(v[i].as_str(), s) {
            assert(views(v@)[i as int] == s@);
            return true;
        }
        i += 1;
    }
    false
}

fn push_once(v: &mut Vec<String>, s: &str)
    ensures
        views(final(v)@) == add_once(views(old(v)@), s@),
{
    if !contains_string(v, s) {
        v.push(String::from_str(s));
        assert(views(v@) =~= views(old(v)@).push(s@));
    }
}

/// The framework a (lower-case) dependency name reveals, if any.
pub open spec fn framework_of(dep: Seq<char>) -> Option<Seq<char>> {
    if dep == "react"@ || dep == "react-dom"@ {
        Some("react"@)
    } else if dep == "next"@ {
        Some("nextjs"@)
    } else if dep == "vue"@ {
        Some("vue"@)
    } else if dep == "svelte"@ {
        Some("svelte"@)
    } else if dep == "@angular/core"@ {
        Some("angular"@)
    } else if dep == "express"@ {
        Some("express"@)
    } else if dep == "tailwindcss"@ {
        Some("tailwind"@)
    } else {
        None
    }
}

/// Whether a (lower-case) dependency name is a test framework.
pub open spec fn is_test_dep(dep: Seq<char>) -> bool {
    dep == "jest"@ || dep == "vitest"@ || dep == "mocha"@ || dep == "@testing-library/react"@ || dep
        == "playwright"@ || dep == "cypress"@
}

/// The frameworks known after reading the dependencies `deps`, in order,
/// starting from `fw`.
pub open spec fn frameworks_after(fw: Seq<Seq<char>>, deps: Seq<Seq<char>>) -> Seq<Seq<char>>
    decreases deps.len(),
{
    if deps.len() == 0 {
        fw
    } else {
        let before = frameworks_after(fw, deps.drop_last());
        match framework_of(lowercase_of(deps.last())) {
            Some(f) => add_once(before, f),
            None => before,
        }
    }
}

/// Whether some dependency, in lower case, is `name`.
pub open spec fn has_dep(deps: Seq<Seq<char>>, name: Seq<char>) -> bool {
    exists|i: int| 0 <= i < deps.len() && lowercase_of(#[trigger] deps[i]) == name
}

/// Whether some dependency, in lower case, is a test framework.
pub open spec fn has_test_dep(deps: Seq<Seq<char>>) -> bool {
    exists|i: int| 0 <= i < deps.len() && is_test_dep(lowercase_of(#[trigger] deps[i]))
}

fn framework_exec(dep: &str) -> (r: Option<&'static str>)
    ensures
        match framework_of(dep@) {
            Some(f) => r is Some && r->Some_0@ == f,
            None => r is None,
        },
{
    if same_text(dep, "react") || same_text(dep, "react-dom") {
        Some("react")
    } else if same_text(dep, "next") {
        Some("nextjs")
    } else if same_text(dep, "vue") {
        Some("vue")
    } else if same_text(dep, "svelte") {
        Some("svelte")
    } else if same_text(dep, "@angular/core") {
        Some("angular")
    } else if same_text(dep, "express") {
        Some("express")
    } else if same_text(dep, "tailwindcss") {
        Some("tailwind")
    } else {
        None
    }
}

/// Reads the dependency names of a `package.json` (its dependencies and
/// dev dependencies) into `info`: the frameworks they reveal, TypeScript,
/// ESLint, Prettier and test frameworks. The package manager and every
/// other field are left as they were.
pub fn parse_package_json(deps: &Vec<String>, info: &mut ProjectInfo)
    ensures
        views(final(info).frameworks@) == frameworks_after(views(old(info).frameworks@), views(deps@)),
        views(final(info).languages@) == if has_dep(views(deps@), "typescript"@) {
            add_once(views(old(info).languages@), "typescript"@)
        } else {
            views(old(info).languages@)
        },
        final(info).has_typescript == (old(info).has_typescript || has_dep(views(deps@), "typescript"@)),
        final(info).has_eslint == (old(info).has_eslint || has_dep(views(deps@), "eslint"@)),
        final(info).has_prettier == (old(info).has_prettier || has_dep(views(deps@), "prettier"@)),
        final(info).has_tests == (old(info).has_tests || has_test_dep(views(deps@))),
        final(info).package_manager == old(info).package_manager,
{
    let ghost d = views(deps@);
    let mut i: usize = 0;
    assert(d.take(0) =~= Seq::<Seq<char>>::empty());
    while i < deps.len()
        invariant
            i <= deps@.len(),
            d == views(deps@),
            views(info.frameworks@) == frameworks_after(views(old(info).frameworks@), d.take(i as int)),
            views(info.languages@) == if has_dep(d.take(i as int), "typescript"@) {
                add_once(views(old(info).languages@), "typescript"@)
            } else {
                views(old(info).languages@)
            },
            info.has_typescript == (old(info).has_typescript || has_dep(d.take(i as int), "typescript"@)),
            info.has_eslint == (old(info).has_eslint || has_dep(d.take(i as int), "eslint"@)),
            info.has_prettier == (old(info).has_prettier || has_dep(d.take(i as int), "prettier"@)),
            info.has_tests == (old(info).has_tests || has_test_dep(d.take(i as int))),
            info.package_manager == old(info).package_manager,
        decreases deps@.len() - i,
    {
        let ghost prev = d.take(i as int);
        let ghost next = d.take(i + 1);
        assert(next.drop_last() =~= prev);
        assert(next.last() == deps@[i as int]@);
        let lower = lowercase(deps[i].as_str());
        let l = lower.as_str();
        assert forall|name: Seq<char>| #[trigger] has_dep(next, name) == (has_dep(prev, name)
            || lowercase_of(deps@[i as int]@) == name) by {
            if has_dep(next, name) {
                let k = choose|k: int| 0 <= k < next.len() && lowercase_of(#[trigger] next[k]) == name;
                if k < i {
                    assert(prev[k] == next[k]);
                }
            }
            if has_dep(prev, name) {
                let k = choose|k: int| 0 <= k < prev.len() && lowercase_of(#[trigger] prev[k]) == name;
                assert(next[k] == prev[k]);
            }
            if lowercase_of(deps@[i as int]@) == name {
                assert(next[i as int] == deps@[i as int]@);
            }
        }
        assert(has_test_dep(next) == (has_test_dep(prev) || is_test_dep(lowercase_of(deps@[i as int]@))))
            by {
            if has_test_dep(next) {
                let k = choose|k: int| 0 <= k < next.len() && is_test_dep(lowercase_of(#[trigger] next[k]));
                if k < i {
                    assert(prev[k] == next[k]);
                }
            }
            if has_test_dep(prev) {
                let k = choose|k: int| 0 <= k < prev.len() && is_test_dep(lowercase_of(#[trigger] prev[k]));
                assert(next[k] == prev[k]);
            }
            if is_test_dep(lowercase_of(deps@[i as int]@)) {
                assert(next[i as int] == deps@[i as int]@);
            }
        }
        match framework_exec(l) {
            Some(f) => push_once(&mut info.frameworks, f),
            None => {},
        }
        if same_text(l, "typescript") {
            info.has_typescript = true;
            push_once(&mut info.languages, "typescript");
        }
        if same_text(l, "eslint") {
            info.has_eslint = true;
        }
        if same_text(l, "prettier") {
            info.has_prettier = true;
        }
        if same_text(l, "jest") || same_text(l, "vitest") || same_text(l, "mocha") || same_text(
            l,
            "@testing-library/react",
        ) || same_text(l, "playwright") || same_text(l, "cypress") {
            info.has_tests = true;
        }
        proof {
            if has_dep(prev, "typescript"@) && lowercase_of(deps@[i as int]@) == "typescript"@ {
                let base = views(old(info).languages@);
                assert(add_once(base, "typescript"@).contains("typescript"@)) by {
                    if !base.contains("typescript"@) {
                        assert(base.push("typescript"@)[base.len() as int] == "typescript"@);
                    }
                }
            }
        }
        i += 1;
    }
    assert(d.take(deps@.len() as int) =~= d);
}

/// Reads a `pyproject.toml` into `info`: Django, Flask and FastAPI are
/// frameworks, pytest means tests. The match ignores case.
pub fn parse_pyproject(content: &str, info: &mut ProjectInfo)
    ensures
        views(final(info).frameworks@) == views(old(info).frameworks@) + (if has_infix(
            lowercase_of(content@),
            "django"@,
        ) {
            seq!["django"@]
        } else {
            Seq::empty()
        }) + (if has_infix(lowercase_of(content@), "flask"@) {
            seq!["flask"@]
        } else {
            Seq::empty()
        }) + (if has_infix(lowercase_of(content@), "fastapi"@) {
            seq!["fastapi"@]
        } else {
            Seq::empty()
        }),
        final(info).has_tests == (old(info).has_tests || has_infix(lowercase_of(content@), "pytest"@)),
        final(info).languages == old(info).languages,
        final(info).package_manager == old(info).package_manager,
        final(info).has_typescript == old(info).has_typescript,
        final(info).has_eslint == old(info).has_eslint,
        final(info).has_prettier == old(info).has_prettier,
{
    let lower = lowercase(content);
    let l = lower.as_str();
    let ghost base = views(info.frameworks@);
    if contains_text(l, "django") {
        info.frameworks.push(String::from_str("django"));
    }
    let ghost a = views(info.frameworks@);
    assert(a =~= base + (if has_infix(l@, "django"@) { seq!["django"@] } else { Seq::empty() }));
    if contains_text(l, "flask") {
        info.frameworks.push(String::from_str("flask"));
    }
    let ghost b = views(info.frameworks@);
    assert(b =~= a + (if has_infix(l@, "flask"@) { seq!["flask"@] } else { Seq::empty() }));
    if contains_text(l, "fastapi") {
        info.frameworks.push(String::from_str("fastapi"));
    }
    assert(views(info.frameworks@) =~= b + (if has_infix(l@, "fastapi"@) {
        seq!["fastapi"@]
    } else {
        Seq::empty()
    }));
    if contains_text(l, "pytest") {
        info.has_tests = true;
    }
}

/// Which of the files that tell a project's kind a folder holds, with what
/// could be read of them.
pub struct ProjectFiles {
    pub package_json: bool,
    /// The dependency names of `package.json`, where it could be read.
    pub package_deps: Option<Vec<String>>,
    pub pnpm_lock: bool,
    pub yarn_lock: bool,
    pub bun_lockb: bool,
    pub cargo_toml: bool,
    pub pyproject_toml: bool,
    /// The text of `pyproject.toml`, where it could be read.
    pub pyproject_content: Option<String>,
    pub setup_py: bool,
    pub go_mod: bool,
    pub tsconfig_json: bool,
    /// Some ESLint configuration file.
    pub eslint_config: bool,
    /// Some Prettier configuration file.
    pub prettier_config: bool,
    /// Some test folder.
    pub test_dir: bool,
}

/// The languages a folder's files reveal, in the order they are found.
pub open spec fn languages_of(files: &ProjectFiles) -> Seq<Seq<char>> {
    let node: Seq<Seq<char>> = if !files.package_json {
        Seq::empty()
    } else if files.package_deps is Some && has_dep(views(files.package_deps->Some_0@), "typescript"@) {
        add_once(seq!["javascript"@], "typescript"@)
    } else {
        seq!["javascript"@]
    };
    let found = node + (if files.cargo_toml {
        seq!["rust"@]
    } else {
        Seq::empty()
    }) + (if files.pyproject_toml || files.setup_py {
        seq!["python"@]
    } else {
        Seq::empty()
    }) + (if files.go_mod {
        seq!["go"@]
    } else {
        Seq::empty()
    });
    if files.tsconfig_json {
        add_once(found, "typescript"@)
    } else {
        found
    }
}

/// What a folder's files tell of the project in it. A Node project is
/// JavaScript with a package manager and what its dependencies reveal; Rust,
/// Python and Go follow; a TypeScript config adds TypeScript once; ESLint,
/// Prettier and tests are found by their files or by dependencies.
pub fn detect_project_info(files: &ProjectFiles) -> (r: ProjectInfo)
    ensures
        r.package_manager == (if files.package_json {
            Some(r.package_manager->Some_0)
        } else {
            None::<String>
        }),
        files.package_json ==> r.package_manager->Some_0@ == package_manager_of(
            files.pnpm_lock,
            files.yarn_lock,
            files.bun_lockb,
        ),
        r.has_eslint == (files.eslint_config || (files.package_json && files.package_deps is Some
            && has_dep(views(files.package_deps->Some_0@), "eslint"@))),
        r.has_prettier == (files.prettier_config || (files.package_json && files.package_deps is Some
            && has_dep(views(files.package_deps->Some_0@), "prettier"@))),
        r.has_typescript == (files.tsconfig_json || (files.package_json && files.package_deps is Some
            && has_dep(views(files.package_deps->Some_0@), "typescript"@))),
        views(r.languages@) == languages_of(files),
        r.has_tests == (files.test_dir || (files.package_json && files.package_deps is Some
            && has_test_dep(views(files.package_deps->Some_0@))) || (files.pyproject_toml
            && files.pyproject_content is Some && has_infix(
            lowercase_of(files.pyproject_content->Some_0@),
            "pytest"@,
        ))),
{
    let mut info = ProjectInfo::new();
    if files.package_json {
        info.languages.push(String::from_str("javascript"));
        assert(views(info.languages@) =~= seq!["javascript"@]);
        info.package_manager = Some(
            detect_node_package_manager(files.pnpm_lock, files.yarn_lock, files.bun_lockb),
        );
        if let Some(deps) = &files.package_deps {
            parse_package_json(deps, &mut info);
        }
    }
    let ghost node = views(info.languages@);
    if files.cargo_toml {
        info.languages.push(String::from_str("rust"));
        info.frameworks.push(String::from_str("rust"));
    }
    if files.pyproject_toml || files.setup_py {
        info.languages.push(String::from_str("python"));
        if files.pyproject_toml {
            if let Some(content) = &files.pyproject_content {
                parse_pyproject(content.as_str(), &mut info);
            }
        }
    }
    if files.go_mod {
        info.languages.push(String::from_str("go"));
    }
    assert(views(info.languages@) =~= node + (if files.cargo_toml {
        seq!["rust"@]
    } else {
        Seq::empty()
    }) + (if files.pyproject_toml || files.setup_py {
        seq!["python"@]
    } else {
        Seq::empty()
    }) + (if files.go_mod {
        seq!["go"@]
    } else {
        Seq::empty()
    }));
    if files.tsconfig_json {
        info.has_typescript = true;
        push_once(&mut info.languages, "typescript");
    }
    info.has_eslint = files.eslint_config || info.has_eslint;
    info.has_prettier = files.prettier_config || info.has_prettier;
    info.has_tests = files.test_dir || info.has_tests;
    info
}

} // verus!
