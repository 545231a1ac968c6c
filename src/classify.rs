//! Classification of a working tree as source code or documentation, from
//! the names of its regular files.
use vstd::prelude::*;
use vstd::string::{StrSliceExecFns, StringExecFns};
use crate::stats::names_of;
use crate::text::{lower_of, to_lower};

verus! {

/// Rules that decide whether a tree holds source code.
pub struct CodeDetectionRules {
    /// Lowercase extensions, without the dot, that count as source or build
    /// files.
    pub source_extensions: Vec<String>,
    /// Numerator of the least share of source files among all files.
    pub min_ratio_num: u64,
    /// Denominator of that share; never zero.
    pub min_ratio_den: u64,
    /// How deep below the root the tree is walked.
    pub max_depth: usize,
}

/// Target-language source extensions, then build and configuration ones.
pub open spec fn default_source_extensions() -> Seq<Seq<char>> {
    seq![
        "java"@, "c"@, "cpp"@, "cc"@, "cxx"@, "h"@, "hpp"@, "rs"@, "cmake"@, "makefile"@,
        "gradle"@, "maven"@, "pom"@, "cargo"@, "toml"@, "xml"@, "properties"@, "json"@, "sh"@,
        "bat"@, "hxx"@, "c++"@, "h++"@, "tcc"@, "tpp"@, "txx"@,
    ]
}

impl CodeDetectionRules {
    /// Rules with the default extension list and the given least share
    /// `min_ratio_num / min_ratio_den` of source files.
    pub fn new(min_ratio_num: u64, min_ratio_den: u64, max_depth: usize) -> (r: Self)
        requires
            min_ratio_den > 0,
        ensures
            names_of(r.source_extensions@) == default_source_extensions(),
            r.min_ratio_num == min_ratio_num,
            r.min_ratio_den == min_ratio_den,
            r.max_depth == max_depth,
    {
        let source_extensions = vec![
            String::from_str("java"),
            String::from_str("c"),
            String::from_str("cpp"),
            String::from_str("cc"),
            String::from_str("cxx"),
            String::from_str("h"),
            String::from_str("hpp"),
            String::from_str("rs"),
            String::from_str("cmake"),
            String::from_str("makefile"),
            String::from_str("gradle"),
            String::from_str("maven"),
            String::from_str("pom"),
            String::from_str("cargo"),
            String::from_str("toml"),
            String::from_str("xml"),
            String::from_str("properties"),
            String::from_str("json"),
            String::from_str("sh"),
            String::from_str("bat"),
            String::from_str("hxx"),
            String::from_str("c++"),
            String::from_str("h++"),
            String::from_str("tcc"),
            String::from_str("tpp"),
            String::from_str("txx"),
        ];
        assert(names_of(source_extensions@) =~= default_source_extensions());
        CodeDetectionRules { source_extensions, min_ratio_num, min_ratio_den, max_depth }
    }

    /// Well-formed rules have a nonzero denominator.
    pub open spec fn wf(&self) -> bool {
        self.min_ratio_den > 0
    }
}

impl Default for CodeDetectionRules {
    /// The default rules: at least one file in twenty is a source file, and
    /// the tree is walked ten levels deep.
    fn default() -> (r: Self)
        ensures
            names_of(r.source_extensions@) == default_source_extensions(),
            r.min_ratio_num == 1,
            r.min_ratio_den == 20,
            r.max_depth == 10,
    {
        Self::new(1, 20, 10)
    }
}

/// The position of the last `.` in a file name, or -1 when there is none.
pub open spec fn last_dot(name: Seq<char>) -> int
    decreases name.len(),
{
    if name.len() == 0 {
        -1
    } else if name.last() == '.' {
        name.len() - 1
    } else {
        last_dot(name.drop_last())
    }
}

/// The extension of a file name: what follows the last `.`, where that dot
/// is not the name's first character.
pub open spec fn extension_of(name: Seq<char>) -> Option<Seq<char>> {
    if last_dot(name) > 0 {
        Some(name.subrange(last_dot(name) + 1, name.len() as int))
    } else {
        None
    }
}

/// Whether the file's lowercased extension is one of `allowed`.
pub open spec fn is_source_file(name: Seq<char>, allowed: Seq<Seq<char>>) -> bool {
    match extension_of(name) {
        Some(ext) => allowed.contains(lower_of(ext)),
        None => false,
    }
}

/// The number of source files among `names`.
pub open spec fn count_source(names: Seq<Seq<char>>, allowed: Seq<Seq<char>>) -> int
    decreases names.len(),
{
    if names.len() == 0 {
        0
    } else {
        count_source(names.drop_last(), allowed) + if is_source_file(names.last(), allowed) {
            1int
        } else {
            0int
        }
    }
}

/// Whether some file of `names` has an extension whose lowercase form is
/// `ext`.
pub open spec fn has_extension(names: Seq<Seq<char>>, ext: Seq<char>) -> bool {
    exists|i: int|
        0 <= i < names.len() && #[trigger] extension_of(names[i]) is Some && lower_of(
            extension_of(names[i])->0,
        ) == ext
}

/// A tree is source code when it has a source file and the share of source
/// files, `source / total`, is at least `num / den`.
pub open spec fn accepts(source: int, total: int, num: int, den: int) -> bool {
    source > 0 && source * den >= num * total
}

/// An empty tree never holds source code, and neither does a tree whose
/// share of source files is below the least share, however many source
/// files it has.
pub proof fn empty_or_sparse_tree_is_not_source(
    names: Seq<Seq<char>>,
    allowed: Seq<Seq<char>>,
    num: u64,
    den: u64,
)
    requires
        den > 0,
    ensures
        names.len() == 0 ==> !accepts(count_source(names, allowed), 0, num as int, den as int),
        count_source(names, allowed) * den < num * names.len() ==> !accepts(
            count_source(names, allowed),
            names.len() as int,
            num as int,
            den as int,
        ),
{
}

/// The result of classifying a tree. The share of source files is
/// `source_files / total_files`, zero for an empty tree.
pub struct CodeAnalysis {
    pub source_files: usize,
    pub total_files: usize,
    pub is_source_code_repo: bool,
    /// Each lowercased extension seen, once, in order of first sight.
    pub file_extensions: Vec<String>,
}

/// The extension of a file name, as `extension_of` defines it.
pub fn file_extension(name: &str) -> (r: Option<String>)
    ensures
        match r {
            Some(ext) => extension_of(name@) == Some(ext@),
            None => extension_of(name@) is None,
        },
{
    let n = name.unicode_len();
    let mut i: usize = n;
    assert(name@.subrange(0, n as int) =~= name@);
    while i > 0 && name.get_char(i - 1) != '.'
        invariant
            n == name@.len(),
            i <= n,
            last_dot(name@) == last_dot(name@.subrange(0, i as int)),
        decreases i,
    {
        assert(name@.subrange(0, i - 1) =~= name@.subrange(0, i as int).drop_last());
        i = i - 1;
    }
    if i > 0 {
        assert(name@.subrange(0, i as int).last() == name@[i - 1]);
    } else {
        assert(name@.subrange(0, 0).len() == 0);
    }
    if i > 1 {
        Some(String::from_str(name.substring_char(i, n)))
    } else {
        None
    }
}

/// Whether `ext` is in `allowed`.
fn contains_name(allowed: &Vec<String>, ext: &String) -> (r: bool)
    ensures
        r == names_of(allowed@).contains(ext@),
{
    let mut k: usize = 0;
    while k < allowed.len()
        invariant
            k <= allowed@.len(),
            forall|m: int| 0 <= m < k ==> (#[trigger] allowed@[m])@ != ext@,
        decreases allowed@.len() - k,
    {
        if allowed[k] == *ext {
            assert(names_of(allowed@)[k as int] == ext@);
            return true;
        }
        k = k + 1;
    }
    proof {
        if names_of(allowed@).contains(ext@) {
            let m = choose|m: int| 0 <= m < names_of(allowed@).len() && names_of(allowed@)[m] == ext@;
            assert(allowed@[m]@ == ext@);
        }
    }
    false
}

proof fn lemma_count_source_step(names: Seq<Seq<char>>, allowed: Seq<Seq<char>>, k: int)
    requires
        0 <= k < names.len(),
    ensures
        count_source(names.subrange(0, k + 1), allowed) == count_source(names.subrange(0, k), allowed)
            + if is_source_file(names[k], allowed) {
            1int
        } else {
            0int
        },
{
    assert(names.subrange(0, k + 1).drop_last() =~= names.subrange(0, k));
}

proof fn lemma_accepts_exact(source: u64, total: u64, num: u64, den: u64)
    ensures
        (source as int) * (den as int) <= u64::MAX as int * u64::MAX as int,
        (num as int) * (total as int) <= u64::MAX as int * u64::MAX as int,
{
    assert((source as int) * (den as int) <= u64::MAX as int * u64::MAX as int) by (nonlinear_arith);
    assert((num as int) * (total as int) <= u64::MAX as int * u64::MAX as int) by (nonlinear_arith);
}

/// Classifies a tree from the names of its regular files: counts them and
/// the source files among them, collects the lowercased extensions, and
/// decides whether the tree holds source code.
pub fn classify_files(file_names: &Vec<String>, rules: &CodeDetectionRules) -> (r: CodeAnalysis)
    requires
        rules.wf(),
    ensures
        r.total_files == file_names@.len(),
        r.source_files == count_source(names_of(file_names@), names_of(rules.source_extensions@)),
        r.is_source_code_repo == accepts(
            r.source_files as int,
            r.total_files as int,
            rules.min_ratio_num as int,
            rules.min_ratio_den as int,
        ),
        forall|a: int, b: int|
            0 <= a < b < r.file_extensions@.len() ==> (#[trigger] r.file_extensions@[a])@ != (
            #[trigger] r.file_extensions@[b])@,
        forall|e: Seq<char>|
            names_of(r.file_extensions@).contains(e) <==> has_extension(names_of(file_names@), e),
{
    let ghost names = names_of(file_names@);
    let ghost allowed = names_of(rules.source_extensions@);
    let mut source: usize = 0;
    let mut exts: Vec<String> = Vec::new();
    let mut i: usize = 0;
    while i < file_names.len()
        invariant
            names == names_of(file_names@),
            allowed == names_of(rules.source_extensions@),
            i <= file_names@.len(),
            source <= i,
            source == count_source(names.subrange(0, i as int), allowed),
            forall|a: int, b: int|
                0 <= a < b < exts@.len() ==> (#[trigger] exts@[a])@ != (#[trigger] exts@[b])@,
            forall|e: Seq<char>|
                names_of(exts@).contains(e) <==> has_extension(names.subrange(0, i as int), e),
        decreases file_names@.len() - i,
    {
        proof {
            lemma_count_source_step(names, allowed, i as int);
        }
        let ghost pre = names.subrange(0, i as int);
        let ghost post = names.subrange(0, i + 1);
        let ghost old_exts = exts@;
        assert(names[i as int] == file_names@[i as int]@);
        match file_extension(file_names[i].as_str()) {
            None => {
                proof {
                    assert forall|e: Seq<char>| has_extension(post, e) implies has_extension(pre, e) by {
                        let j = choose|j: int|
                            0 <= j < post.len() && #[trigger] extension_of(post[j]) is Some
                                && lower_of(extension_of(post[j])->0) == e;
                        assert(j != i);
                        assert(pre[j] == post[j]);
                    }
                    assert forall|e: Seq<char>| has_extension(pre, e) implies has_extension(post, e) by {
                        let j = choose|j: int|
                            0 <= j < pre.len() && #[trigger] extension_of(pre[j]) is Some
                                && lower_of(extension_of(pre[j])->0) == e;
                        assert(pre[j] == post[j]);
                    }
                }
            },
            Some(ext) => {
                let lower = to_lower(ext.as_str());
                if contains_name(&rules.source_extensions, &lower) {
                    source = source + 1;
                }
                let ghost lower_view = lower@;
                let present = contains_name(&exts, &lower);
                if !present {
                    exts.push(lower);
                    proof {
                        assert(names_of(exts@) =~= names_of(old_exts).push(lower_view));
                        assert forall|a: int, b: int|
                            0 <= a < b < exts@.len() implies (#[trigger] exts@[a])@ != (
                            #[trigger] exts@[b])@ by {
                            if b == exts@.len() - 1 {
                                assert(names_of(old_exts)[a] == exts@[a]@);
                            }
                        }
                    }
                }
                proof {
                    assert(extension_of(post[i as int]) == Some(ext@));
                    if !present {
                        assert(names_of(exts@)[old_exts.len() as int] == lower_view);
                    }
                    assert(names_of(exts@).contains(lower_view));
                    assert forall|e: Seq<char>| #[trigger] names_of(exts@).contains(e) implies has_extension(post, e) by {
                        if e == lower_view {
                            assert(extension_of(post[i as int]) is Some && lower_of(
                                extension_of(post[i as int])->0) == e);
                        } else {
                            let m = choose|m: int| 0 <= m < names_of(exts@).len() && names_of(exts@)[m] == e;
                            if m >= old_exts.len() {
                                assert(names_of(exts@)[m] == lower_view);
                            }
                            assert(names_of(old_exts)[m] == e);
                            assert(names_of(old_exts).contains(e));
                            assert(has_extension(pre, e));
                            let j = choose|j: int|
                                0 <= j < pre.len() && #[trigger] extension_of(pre[j]) is Some
                                    && lower_of(extension_of(pre[j])->0) == e;
                            assert(pre[j] == post[j]);
                        }
                    }
                    assert forall|e: Seq<char>| has_extension(post, e) implies #[trigger] names_of(exts@).contains(e) by {
                        if e != lower_view {
                            let j = choose|j: int|
                                0 <= j < post.len() && #[trigger] extension_of(post[j]) is Some
                                    && lower_of(extension_of(post[j])->0) == e;
                            assert(j != i);
                            assert(pre[j] == post[j]);
                            assert(has_extension(pre, e));
                            assert(names_of(old_exts).contains(e));
                            let m = choose|m: int| 0 <= m < names_of(old_exts).len() && names_of(old_exts)[m] == e;
                            assert(names_of(exts@)[m] == e);
                        }
                    }
                }
            },
        }
        i = i + 1;
    }
    assert(names.subrange(0, file_names@.len() as int) =~= names);
    let total = file_names.len();
    proof {
        lemma_accepts_exact(source as u64, total as u64, rules.min_ratio_num, rules.min_ratio_den);
    }
    let is_source = source > 0 && (source as u128) * (rules.min_ratio_den as u128)
        >= (rules.min_ratio_num as u128) * (total as u128);
    CodeAnalysis {
        source_files: source,
        total_files: total,
        is_source_code_repo: is_source,
        file_extensions: exts,
    }
}

} // verus!
