use vstd::prelude::*;

use crate::text::{parse_usize, parsed_usize, push_text, strip_prefix, text, texts};

verus! {

/// The import module of the WebAssembly system interface.
pub open spec fn wasi_module() -> Seq<char> {
    "wasi_snapshot_preview1"@
}

/// The version number after `prefix` in `name`, when `name` is `prefix`
/// followed by a number.
pub open spec fn version_after(name: Seq<char>, prefix: Seq<char>) -> Option<nat> {
    if prefix.is_prefix_of(name) {
        parsed_usize(name.subrange(prefix.len() as int, name.len() as int))
    } else {
        None
    }
}

/// Whether a provider of this name exchanges data through linear memory:
/// `shopify_functions_javy_v<N>` with N at least 3, or `shopify_function_v<N>`
/// with N at least 2.
pub open spec fn is_mem_io_name(name: Seq<char>) -> bool {
    (match version_after(name, "shopify_functions_javy_v"@) {
        Some(v) => v >= 3,
        None => false,
    }) || (match version_after(name, "shopify_function_v"@) {
        Some(v) => v >= 2,
        None => false,
    })
}

fn version_of(name: &str, prefix: &str) -> (r: Option<usize>)
    ensures
        match version_after(name@, prefix@) {
            Some(v) => r == Some(v as usize),
            None => r is None,
        },
{
    match strip_prefix(name, prefix) {
        Some(rest) => parse_usize(rest),
        None => None,
    }
}

/// An auxiliary module linked under its import name.
#[derive(Debug)]
pub struct Provider {
    pub name: String,
    pub bytes: Vec<u8>,
}

impl Provider {
    /// Whether the provider exchanges data through linear memory (see `is_mem_io_name`).
    pub fn is_mem_io_provider(&self) -> (r: bool)
        ensures
            r == is_mem_io_name(self.name@),
    {
        let javy = version_of(self.name.as_str(), "shopify_functions_javy_v");
        if let Some(v) = javy {
            if v >= 3 {
                return true;
            }
        }
        let function = version_of(self.name.as_str(), "shopify_function_v");
        if let Some(v) = function {
            if v >= 2 {
                return true;
            }
        }
        false
    }
}

/// Whether a module with these import modules talks MessagePack to its provider:
/// one of them starts with `shopify_function_v`, or is
/// `shopify_functions_javy_v<N>` with N at least 2.
pub open spec fn uses_msgpack(imports: Seq<Seq<char>>) -> bool {
    exists|i: int|
        0 <= i < imports.len() && ("shopify_function_v"@.is_prefix_of(#[trigger] imports[i])
            || match version_after(imports[i], "shopify_functions_javy_v"@) {
            Some(v) => v >= 2,
            None => false,
        })
}

/// Whether the import modules name a provider that talks MessagePack (see `uses_msgpack`).
pub fn uses_msgpack_provider(imports: &Vec<String>) -> (r: bool)
    ensures
        r == uses_msgpack(texts(imports@)),
{
    let ghost t = texts(imports@);
    let mut i: usize = 0;
    while i < imports.len()
        invariant
            i <= imports.len(),
            t == texts(imports@),
            forall|l: int|
                0 <= l < i ==> !("shopify_function_v"@.is_prefix_of(#[trigger] t[l]) || match version_after(
                    t[l],
                    "shopify_functions_javy_v"@,
                ) {
                    Some(v) => v >= 2,
                    None => false,
                }),
        decreases imports.len() - i,
    {
        let name = imports[i].as_str();
        assert(t[i as int] == name@);
        let hit = match strip_prefix(name, "shopify_function_v") {
            Some(_) => true,
            None => match version_of(name, "shopify_functions_javy_v") {
                Some(v) => v >= 2,
                None => false,
            },
        };
        if hit {
            return true;
        }
        i = i + 1;
    }
    false
}

/// `imports` without repeats, each kept where it first occurs.
pub open spec fn dedup(imports: Seq<Seq<char>>) -> Seq<Seq<char>>
    decreases imports.len(),
{
    if imports.len() == 0 {
        Seq::empty()
    } else {
        let rest = dedup(imports.drop_last());
        if rest.contains(imports.last()) {
            rest
        } else {
            rest.push(imports.last())
        }
    }
}

/// The index in `catalog` of the first provider named `name`, if any.
pub open spec fn provider_index(catalog: Seq<Provider>, name: Seq<char>, j: int) -> Option<int>
    decreases catalog.len() - j,
{
    if j < 0 || j >= catalog.len() {
        None
    } else if catalog[j].name@ == name {
        Some(j)
    } else {
        provider_index(catalog, name, j + 1)
    }
}

/// The catalog index of the provider of the first import (from `i` on) that has one.
pub open spec fn first_provided(imports: Seq<Seq<char>>, catalog: Seq<Provider>, i: int) -> Option<
    int,
>
    decreases imports.len() - i,
{
    if i < 0 || i >= imports.len() {
        None
    } else {
        match provider_index(catalog, imports[i], 0) {
            Some(k) => Some(k),
            None => first_provided(imports, catalog, i + 1),
        }
    }
}

/// Why a module cannot run.
#[derive(Debug)]
pub enum ModuleError {
    /// The module imports both a memory-I/O provider (named) and the system interface.
    MemIoWithWasi(String),
}

impl ModuleError {
    /// The message shown to the user.
    pub fn message(&self) -> (r: String)
        ensures
            match self {
                ModuleError::MemIoWithWasi(name) => r@ == "Invalid Function, cannot use `"@ + name@
                    + "` and import WASI. If using Rust, change the build target to `wasm32-unknown-unknown`."@,
            },
    {
        match self {
            ModuleError::MemIoWithWasi(name) => {
                let mut m = text("Invalid Function, cannot use `");
                push_text(&mut m, name.as_str());
                push_text(
                    &mut m,
                    "` and import WASI. If using Rust, change the build target to `wasm32-unknown-unknown`.",
                );
                m
            },
        }
    }
}

proof fn lemma_contains_push<A>(s: Seq<A>, x: A, y: A)
    ensures
        s.push(x).contains(y) <==> (s.contains(y) || x == y),
{
    if s.push(x).contains(y) && x != y {
        let l = choose|l: int| 0 <= l < s.push(x).len() && #[trigger] s.push(x)[l] == y;
        assert(s[l] == y);
    }
    if s.contains(y) {
        let l = choose|l: int| 0 <= l < s.len() && #[trigger] s[l] == y;
        assert(s.push(x)[l] == y);
    }
    if x == y {
        assert(s.push(x)[s.len() as int] == y);
    }
}

/// A module whose imports were checked: at most one known provider, and no
/// memory-I/O provider together with the system interface.
#[derive(Debug)]
pub struct ValidatedModule {
    imports: Vec<String>,
    std_import: Option<Provider>,
    uses_wasi: bool,
}

impl ValidatedModule {
    /// The import modules, without repeats, in first-seen order.
    pub closed spec fn spec_imports(&self) -> Seq<Seq<char>> {
        texts(self.imports@)
    }

    /// The provider the module is linked with, if any.
    pub closed spec fn spec_std_import(&self) -> Option<Provider> {
        self.std_import
    }

    /// Whether the module imports the system interface.
    pub closed spec fn spec_uses_wasi(&self) -> bool {
        self.uses_wasi
    }

    /// Check a module given the import module of each of its imports, in order,
    /// and the providers of the catalog that match some of those names.
    pub fn new(imports: Vec<String>, catalog: Vec<Provider>) -> (r: Result<
        ValidatedModule,
        ModuleError,
    >)
        ensures
            match first_provided(dedup(texts(imports@)), catalog@, 0) {
                Some(k) => if is_mem_io_name(catalog@[k].name@) && texts(imports@).contains(
                    wasi_module(),
                ) {
                    r matches Err(ModuleError::MemIoWithWasi(n)) && n@ == catalog@[k].name@
                } else {
                    r matches Ok(m) && m.spec_std_import() == Some(catalog@[k])
                },
                None => r matches Ok(m) && m.spec_std_import() is None,
            },
            r matches Ok(m) ==> m.spec_imports() == dedup(texts(imports@)) && m.spec_uses_wasi()
                == texts(imports@).contains(wasi_module()),
    {
        let ghost t = texts(imports@);
        let mut unique: Vec<String> = Vec::new();
        let mut uses_wasi = false;
        let wasi = text("wasi_snapshot_preview1");
        proof {
            reveal_strlit("wasi_snapshot_preview1");
        }
        let mut i: usize = 0;
        while i < imports.len()
            invariant
                i <= imports.len(),
                t == texts(imports@),
                wasi@ == wasi_module(),
                texts(unique@) == dedup(t.take(i as int)),
                uses_wasi == t.take(i as int).contains(wasi_module()),
            decreases imports.len() - i,
        {
            assert(t.take(i + 1).drop_last() =~= t.take(i as int));
            assert(t.take(i + 1) =~= t.take(i as int).push(imports@[i as int]@));
            proof {
                lemma_contains_push(t.take(i as int), imports@[i as int]@, wasi_module());
            }
            if imports[i] == wasi {
                uses_wasi = true;
            }
            let mut seen = false;
            let mut j: usize = 0;
            while j < unique.len()
                invariant
                    i < imports.len(),
                    j <= unique.len(),
                    seen == texts(unique@).take(j as int).contains(imports@[i as int]@),
                decreases unique.len() - j,
            {
                let ghost u = texts(unique@);
                assert(u.take(j + 1) =~= u.take(j as int).push(u[j as int]));
                proof {
                    lemma_contains_push(u.take(j as int), u[j as int], imports@[i as int]@);
                }
                if unique[j] == imports[i] {
                    seen = true;
                }
                j = j + 1;
            }
            assert(texts(unique@).take(unique.len() as int) =~= texts(unique@));
            if !seen {
                let ghost before = unique@;
                unique.push(imports[i].clone());
                assert(texts(unique@) =~= texts(before).push(imports@[i as int]@));
            }
            i = i + 1;
        }
        assert(t.take(imports.len() as int) =~= t);
        let ghost d = texts(unique@);
        let mut catalog = catalog;
        let ghost cat = catalog@;
        let mut found: Option<usize> = None;
        let mut i: usize = 0;
        while i < unique.len() && found.is_none()
            invariant
                i <= unique.len(),
                d == texts(unique@),
                cat == catalog@,
                found is None ==> first_provided(d, cat, 0) == first_provided(d, cat, i as int),
                found matches Some(k) ==> first_provided(d, cat, 0) == Some(k as int) && k
                    < catalog.len(),
            decreases unique.len() - i + (if found is None { 1int } else { 0int }),
        {
            let mut j: usize = 0;
            while j < catalog.len() && found.is_none()
                invariant
                    i < unique.len(),
                    j <= catalog.len(),
                    d == texts(unique@),
                    cat == catalog@,
                    found is None ==> provider_index(cat, d[i as int], 0) == provider_index(
                        cat,
                        d[i as int],
                        j as int,
                    ),
                    found matches Some(k) ==> provider_index(cat, d[i as int], 0) == Some(
                        k as int,
                    ) && k < catalog.len(),
                decreases catalog.len() - j + (if found is None { 1int } else { 0int }),
            {
                if catalog[j].name == unique[i] {
                    found = Some(j);
                } else {
                    j = j + 1;
                }
            }
            if found.is_none() {
                i = i + 1;
            }
        }
        let std_import = match found {
            Some(k) => Some(catalog.remove(k)),
            None => None,
        };
        if let Some(p) = &std_import {
            if p.is_mem_io_provider() && uses_wasi {
                let name = match std_import {
                    Some(p) => p.name,
                    None => String::new(),
                };
                return Err(ModuleError::MemIoWithWasi(name));
            }
        }
        Ok(ValidatedModule { imports: unique, std_import, uses_wasi })
    }

    /// The import modules, without repeats, in first-seen order.
    pub fn imports(&self) -> (r: &Vec<String>)
        ensures
            texts(r@) == self.spec_imports(),
    {
        &self.imports
    }

    /// The provider the module is linked with, if any.
    pub fn std_import(&self) -> (r: Option<&Provider>)
        ensures
            match self.spec_std_import() {
                Some(p) => r matches Some(q) && *q == p,
                None => r is None,
            },
    {
        match &self.std_import {
            Some(p) => Some(p),
            None => None,
        }
    }

    /// Whether the module imports the system interface.
    pub fn uses_wasi(&self) -> (r: bool)
        ensures
            r == self.spec_uses_wasi(),
    {
        self.uses_wasi
    }

    /// Whether the module exchanges data through linear memory: its provider is a
    /// memory-I/O provider.
    pub fn uses_mem_io(&self) -> (r: bool)
        ensures
            r == (match self.spec_std_import() {
                Some(p) => is_mem_io_name(p.name@),
                None => false,
            }),
    {
        match &self.std_import {
            Some(p) => p.is_mem_io_provider(),
            None => false,
        }
    }
}

} // verus!
