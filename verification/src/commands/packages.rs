//! Which package suits this machine, and which version is newer.
use crate::json::{Json, JsonView, item_views};
use crate::text::{
    join_path, opt_str, parse_uint, parsed, path_join, same_text, split_at_char, split_on, views,
};
use vstd::prelude::*;
use vstd::string::*;

verus! {

// ----- what suits this machine -----

/// The name of the update service for an architecture.
pub open spec fn arch_key(arch: Seq<char>) -> Option<Seq<char>> {
    if arch == "x86_64"@ {
        Some("x64"@)
    } else if arch == "aarch64"@ {
        Some("arm64"@)
    } else {
        None
    }
}

/// The name of the update service for an architecture. An unknown architecture has none.
pub fn arch_key_for(arch: &str) -> (res: Option<&'static str>)
    ensures
        opt_str(res) == arch_key(arch@),
{
    if same_text(arch, "x86_64") {
        Some("x64")
    } else if same_text(arch, "aarch64") {
        Some("arm64")
    } else {
        None
    }
}

/// The package format for the package managers that are there.
pub open spec fn package_format(dpkg: bool, rpm: bool) -> Option<Seq<char>> {
    if dpkg {
        Some("deb"@)
    } else if rpm {
        Some("rpm"@)
    } else {
        None
    }
}

/// The package format for the package managers that are there: `dpkg` comes first.
pub fn detect_preferred_format(dpkg: bool, rpm: bool) -> (res: Option<&'static str>)
    ensures
        opt_str(res) == package_format(dpkg, rpm),
{
    if dpkg {
        Some("deb")
    } else if rpm {
        Some("rpm")
    } else {
        None
    }
}

/// The places of a program along a search path: below each directory that is not empty.
pub open spec fn program_places(search_path: Seq<char>, name: Seq<char>) -> Seq<Seq<char>> {
    split_on(search_path, ':').filter(|d: Seq<char>| d.len() > 0).map_values(
        |d: Seq<char>| path_join(d, name),
    )
}

/// The places where a program may be, along a search path with colons between its directories.
pub fn binary_places(search_path: &str, name: &str) -> (res: Vec<String>)
    ensures
        views(res@) == program_places(search_path@, name@),
{
    let dirs = split_at_char(search_path, ':');
    let ghost all = split_on(search_path@, ':');
    let ghost keep = |d: Seq<char>| d.len() > 0;
    let ghost place = |d: Seq<char>| path_join(d, name@);
    let mut out: Vec<String> = Vec::new();
    let mut i: usize = 0;
    proof {
        reveal(Seq::filter);
        assert(all.take(0) =~= Seq::<Seq<char>>::empty());
        assert(views(out@) =~= all.take(0).filter(keep).map_values(place));
    }
    while i < dirs.len()
        invariant
            i <= dirs@.len(),
            views(dirs@) == all,
            keep == (|d: Seq<char>| d.len() > 0),
            place == (|d: Seq<char>| path_join(d, name@)),
            views(out@) == all.take(i as int).filter(keep).map_values(place),
        decreases dirs@.len() - i,
    {
        assert(all[i as int] == dirs@[i as int]@);
        assert(all.take(i + 1) =~= all.take(i as int).push(all[i as int]));
        proof {
            crate::text::lemma_filter_push(all.take(i as int), all[i as int], keep);
        }
        let ghost before = views(out@);
        if !dirs[i].as_str().is_empty() {
            let p = join_path(dirs[i].as_str(), name);
            out.push(p);
            assert(views(out@) =~= before.push(p@));
        }
        i = i + 1;
        assert(views(out@) =~= all.take(i as int).filter(keep).map_values(place));
    }
    assert(all.take(i as int) =~= all);
    out
}

/// Whether a package has an address and is for exactly this architecture and format.
pub open spec fn package_suits(package: JsonView, arch: Seq<char>, format: Seq<char>) -> bool {
    package.text("format"@) == Some(format) && package.text("url"@) is Some && package.text_or(
        "arch"@,
        ""@,
    ) == arch
}

/// The address and the hash of the first package from position `i` on that suits.
pub open spec fn package_from(
    packages: Seq<JsonView>,
    arch: Seq<char>,
    format: Seq<char>,
    i: int,
) -> Option<(Seq<char>, Seq<char>)>
    decreases packages.len() - i,
{
    if i < 0 || i >= packages.len() {
        None
    } else if package_suits(packages[i], arch, format) {
        Some((packages[i].text_or("url"@, ""@), packages[i].text_or("sha256"@, ""@)))
    } else {
        package_from(packages, arch, format, i + 1)
    }
}

/// The model of an address and a hash.
pub open spec fn package_view(p: Option<(String, String)>) -> Option<(Seq<char>, Seq<char>)> {
    match p {
        Some((url, hash)) => Some((url@, hash@)),
        None => None,
    }
}

/// The address and the hash of the first package for exactly this architecture and format.
pub fn select_package(packages: &Vec<Json>, arch_key: &str, format: &str) -> (res: Option<
    (String, String),
>)
    ensures
        package_view(res) == package_from(item_views(packages@), arch_key@, format@, 0),
{
    let mut i: usize = 0;
    while i < packages.len()
        invariant
            i <= packages@.len(),
            package_from(item_views(packages@), arch_key@, format@, 0) == package_from(
                item_views(packages@),
                arch_key@,
                format@,
                i as int,
            ),
        decreases packages@.len() - i,
    {
        let pkg = &packages[i];
        assert(item_views(packages@)[i as int] == pkg@);
        if let Some(pkg_format) = pkg.text("format") {
            if let Some(url) = pkg.text("url") {
                let pkg_arch = pkg.text_or("arch", "");
                if same_text(pkg_format, format) && same_text(pkg_arch.as_str(), arch_key) {
                    let hash = pkg.text_or("sha256", "");
                    return Some((url.to_owned(), hash));
                }
            }
        }
        i = i + 1;
    }
    None
}

/// A package that is selected is one of the list, and is for exactly the architecture and the
/// format asked for. Where none is selected there is none.
pub proof fn law_selected_package_suits(
    packages: Seq<JsonView>,
    arch: Seq<char>,
    format: Seq<char>,
    i: int,
)
    requires
        0 <= i <= packages.len(),
    ensures
        package_from(packages, arch, format, i) is Some <==> exists|k: int|
            i <= k < packages.len() && package_suits(#[trigger] packages[k], arch, format),
        package_from(packages, arch, format, i) matches Some((url, hash)) ==> exists|k: int|
            i <= k < packages.len() && package_suits(#[trigger] packages[k], arch, format)
                && packages[k].text("url"@) == Some(url),
    decreases packages.len() - i,
{
    if i < packages.len() {
        law_selected_package_suits(packages, arch, format, i + 1);
        if package_suits(packages[i], arch, format) {
            assert(packages[i].text("url"@) == Some(packages[i].text_or("url"@, ""@)));
        }
    }
}

// ----- versions -----

/// The numbers among the parts of a version.
pub open spec fn version_numbers(parts: Seq<Seq<char>>) -> Seq<nat>
    decreases parts.len(),
{
    if parts.len() == 0 {
        Seq::empty()
    } else {
        match parsed(parts.last(), u32::MAX as nat) {
            Some(n) => version_numbers(parts.drop_last()).push(n),
            None => version_numbers(parts.drop_last()),
        }
    }
}

/// The numbers of a version.
pub open spec fn version(s: Seq<char>) -> Seq<nat> {
    version_numbers(split_on(s, '.'))
}

/// The number at a place of a version, 0 where the version is shorter.
pub open spec fn number_at(v: Seq<nat>, i: int) -> nat {
    if 0 <= i < v.len() {
        v[i]
    } else {
        0
    }
}

/// Whether `a` is larger than `b` at `i`, and they agree before it.
pub open spec fn larger_at(a: Seq<nat>, b: Seq<nat>, i: int) -> bool {
    &&& 0 <= i
    &&& number_at(a, i) > number_at(b, i)
    &&& forall|j: int| 0 <= j < i ==> #[trigger] number_at(a, j) == number_at(b, j)
}

/// Whether `a` is the larger version: at the first place where they differ.
pub open spec fn version_larger(a: Seq<nat>, b: Seq<nat>) -> bool {
    exists|i: int| #[trigger] larger_at(a, b, i)
}

/// The numbers of a version.
fn parse_version(s: &str) -> (res: Vec<u32>)
    ensures
        res@.len() == version(s@).len(),
        forall|i: int| 0 <= i < res@.len() ==> version(s@)[i] == #[trigger] res@[i],
{
    let parts = split_at_char(s, '.');
    let ghost all = split_on(s@, '.');
    let mut out: Vec<u32> = Vec::new();
    let mut i: usize = 0;
    assert(all.take(0) =~= Seq::<Seq<char>>::empty());
    while i < parts.len()
        invariant
            i <= parts@.len(),
            views(parts@) == all,
            out@.len() == version_numbers(all.take(i as int)).len(),
            forall|k: int|
                0 <= k < out@.len() ==> version_numbers(all.take(i as int))[k] == #[trigger] out@[k],
        decreases parts@.len() - i,
    {
        assert(all[i as int] == parts@[i as int]@);
        assert(all.take(i + 1).drop_last() =~= all.take(i as int));
        assert(all.take(i + 1).last() == all[i as int]);
        if let Some(n) = parse_uint(parts[i].as_str(), u32::MAX as u64) {
            assert(n <= u32::MAX);
            out.push(n as u32);
        }
        i = i + 1;
    }
    assert(all.take(i as int) =~= all);
    out
}

/// Whether the version `v1` is larger than the version `v2`.
pub fn version_gt(v1: &str, v2: &str) -> (res: bool)
    ensures
        res == version_larger(version(v1@), version(v2@)),
{
    let a = parse_version(v1);
    let b = parse_version(v2);
    let ghost (x, y) = (version(v1@), version(v2@));
    let n: usize = if a.len() >= b.len() {
        a.len()
    } else {
        b.len()
    };
    let mut i: usize = 0;
    while i < n
        invariant
            i <= n,
            n >= a@.len(),
            n >= b@.len(),
            x.len() == a@.len(),
            y.len() == b@.len(),
            forall|k: int| 0 <= k < a@.len() ==> x[k] == #[trigger] a@[k],
            forall|k: int| 0 <= k < b@.len() ==> y[k] == #[trigger] b@[k],
            forall|j: int| 0 <= j < i ==> #[trigger] number_at(x, j) == number_at(y, j),
            x == version(v1@),
            y == version(v2@),
        decreases n - i,
    {
        let av: u32 = if i < a.len() {
            a[i]
        } else {
            0
        };
        let bv: u32 = if i < b.len() {
            b[i]
        } else {
            0
        };
        assert(number_at(x, i as int) == av);
        assert(number_at(y, i as int) == bv);
        if av > bv {
            assert(larger_at(x, y, i as int));
            return true;
        }
        if av < bv {
            proof {
                if version_larger(x, y) {
                    let k = choose|k: int| larger_at(x, y, k);
                    assert(number_at(x, k) > number_at(y, k));
                    if k > i {
                        assert(number_at(x, i as int) == number_at(y, i as int));
                    }
                }
            }
            return false;
        }
        i = i + 1;
    }
    proof {
        if version_larger(x, y) {
            let k = choose|k: int| larger_at(x, y, k);
            assert(number_at(x, k) > number_at(y, k));
        }
    }
    false
}

/// "Larger" is a strict order on versions: no version is larger than itself, no two are larger
/// than each other, and it passes on.
pub proof fn law_version_order_is_strict(a: Seq<nat>, b: Seq<nat>, c: Seq<nat>)
    ensures
        !version_larger(a, a),
        version_larger(a, b) ==> !version_larger(b, a),
        version_larger(a, b) && version_larger(b, c) ==> version_larger(a, c),
{
    if version_larger(a, b) && version_larger(b, a) {
        let i = choose|i: int| larger_at(a, b, i);
        let j = choose|j: int| larger_at(b, a, j);
        if i < j {
            assert(number_at(b, i) == number_at(a, i));
        } else if j < i {
            assert(number_at(a, j) == number_at(b, j));
        }
    }
    if version_larger(a, b) && version_larger(b, c) {
        let i = choose|i: int| larger_at(a, b, i);
        let j = choose|j: int| larger_at(b, c, j);
        let k = if i <= j {
            i
        } else {
            j
        };
        assert forall|m: int| 0 <= m < k implies #[trigger] number_at(a, m) == number_at(c, m) by {
            assert(number_at(a, m) == number_at(b, m));
            assert(number_at(b, m) == number_at(c, m));
        }
        if i < j {
            assert(number_at(b, i) == number_at(c, i));
        } else if j < i {
            assert(number_at(a, j) == number_at(b, j));
        }
        assert(larger_at(a, c, k));
    }
}

/// Of two versions that differ at a place, one is larger.
proof fn lemma_difference_decides(a: Seq<nat>, b: Seq<nat>, i: int)
    requires
        0 <= i,
        number_at(a, i) != number_at(b, i),
    ensures
        version_larger(a, b) || version_larger(b, a),
    decreases i,
{
    if exists|j: int| 0 <= j < i && #[trigger] number_at(a, j) != number_at(b, j) {
        let j = choose|j: int| 0 <= j < i && #[trigger] number_at(a, j) != number_at(b, j);
        lemma_difference_decides(a, b, j);
    } else if number_at(a, i) > number_at(b, i) {
        assert(larger_at(a, b, i));
    } else {
        assert forall|j: int| 0 <= j < i implies #[trigger] number_at(b, j) == number_at(a, j) by {
            assert(number_at(a, j) == number_at(b, j));
        }
        assert(larger_at(b, a, i));
    }
}

/// Neither of two versions is the larger exactly when they are equal once zeros are put behind the
/// shorter one.
pub proof fn law_equal_versions_are_not_larger(a: Seq<nat>, b: Seq<nat>)
    ensures
        !version_larger(a, b) && !version_larger(b, a) <==> forall|i: int|
            0 <= i ==> #[trigger] number_at(a, i) == number_at(b, i),
{
    if forall|i: int| 0 <= i ==> #[trigger] number_at(a, i) == number_at(b, i) {
        if version_larger(a, b) {
            let i = choose|i: int| larger_at(a, b, i);
            assert(number_at(a, i) == number_at(b, i));
        }
        if version_larger(b, a) {
            let i = choose|i: int| larger_at(b, a, i);
            assert(number_at(a, i) == number_at(b, i));
        }
    } else {
        let i = choose|i: int| 0 <= i && #[trigger] number_at(a, i) != number_at(b, i);
        lemma_difference_decides(a, b, i);
    }
}

// ----- what is read and what is chosen -----

/// The numbers of a version in words.
pub open spec fn number_words(numbers: Seq<nat>) -> Seq<Seq<char>> {
    numbers.map_values(|n: nat| crate::text::decimal(n))
}

/// The numbers among parts that are numbers in words are those numbers.
proof fn lemma_version_numbers(numbers: Seq<nat>)
    requires
        forall|i: int| 0 <= i < numbers.len() ==> #[trigger] numbers[i] <= u32::MAX,
    ensures
        version_numbers(number_words(numbers)) == numbers,
    decreases numbers.len(),
{
    let words = number_words(numbers);
    if numbers.len() > 0 {
        let rest = numbers.drop_last();
        assert forall|i: int| 0 <= i < rest.len() implies #[trigger] rest[i] <= u32::MAX by {
            assert(rest[i] == numbers[i]);
        }
        lemma_version_numbers(rest);
        assert(words.drop_last() =~= number_words(rest));
        assert(numbers[numbers.len() - 1] <= u32::MAX);
        crate::text::law_decimal_round_trip(numbers.last(), u32::MAX as nat);
        assert(rest.push(numbers.last()) =~= numbers);
    } else {
        assert(version_numbers(words) =~= numbers);
    }
}

/// A version in words, numbers with stops between them, is read as those numbers in that order.
pub proof fn law_version_is_read_as_its_numbers(numbers: Seq<nat>)
    requires
        numbers.len() > 0,
        forall|i: int| 0 <= i < numbers.len() ==> #[trigger] numbers[i] <= u32::MAX,
    ensures
        version(crate::text::joined(number_words(numbers), seq!['.'])) == numbers,
{
    let words = number_words(numbers);
    assert forall|i: int| 0 <= i < words.len() implies !(#[trigger] words[i]).contains('.') by {
        crate::text::law_decimal_denotes(numbers[i]);
        if words[i].contains('.') {
            let j = choose|j: int| 0 <= j < words[i].len() && words[i][j] == '.';
            assert(crate::text::is_digit(words[i][j]));
        }
    }
    crate::text::law_joined_pieces_come_apart(words, '.');
    lemma_version_numbers(numbers);
}

/// A version with zeros behind it, `n` numbers long.
pub open spec fn with_zeros(v: Seq<nat>, n: int) -> Seq<nat> {
    v + Seq::new((n - v.len()) as nat, |i: int| 0nat)
}

/// One version is larger than another exactly where, with zeros put behind the shorter one, at some
/// place its number is larger and before that place both have the same numbers.
pub proof fn law_first_difference_decides(a: Seq<nat>, b: Seq<nat>, n: int)
    requires
        a.len() <= n,
        b.len() <= n,
    ensures
        version_larger(a, b) <==> exists|i: int|
            0 <= i < n && with_zeros(a, n)[i] > with_zeros(b, n)[i] && #[trigger] with_zeros(
                a,
                n,
            ).take(i) == with_zeros(b, n).take(i),
{
    let (x, y) = (with_zeros(a, n), with_zeros(b, n));
    assert forall|j: int| 0 <= j < n implies x[j] == #[trigger] number_at(a, j) && y[j] == number_at(
        b,
        j,
    ) by {}
    if version_larger(a, b) {
        let i = choose|i: int| larger_at(a, b, i);
        assert(number_at(a, i) > number_at(b, i));
        assert(i < n);
        assert forall|j: int| 0 <= j < i implies x[j] == y[j] by {
            assert(number_at(a, j) == number_at(b, j));
        }
        assert(x.take(i) =~= y.take(i));
    }
    if exists|i: int| 0 <= i < n && x[i] > y[i] && #[trigger] x.take(i) == y.take(i) {
        let i = choose|i: int| 0 <= i < n && x[i] > y[i] && #[trigger] x.take(i) == y.take(i);
        assert(number_at(a, i) > number_at(b, i));
        assert forall|j: int| 0 <= j < i implies #[trigger] number_at(a, j) == number_at(b, j) by {
            assert(x[j] == x.take(i)[j]);
            assert(y[j] == y.take(i)[j]);
        }
        assert(larger_at(a, b, i));
    }
}

/// Of the packages the first one for the architecture and the format that has an address is chosen,
/// and the address and the hash are both of that one package. A package without a hash gives none.
pub proof fn law_address_and_hash_are_of_one_package(
    packages: Seq<JsonView>,
    arch: Seq<char>,
    format: Seq<char>,
    i: int,
)
    requires
        0 <= i <= packages.len(),
    ensures
        match package_from(packages, arch, format, i) {
            Some((url, hash)) => exists|k: int|
                #![trigger packages[k]]
                i <= k < packages.len() && packages[k].text("format"@) == Some(format)
                    && packages[k].text_or("arch"@, ""@) == arch && packages[k].text("url"@) == Some(
                    url,
                ) && (match packages[k].text("sha256"@) {
                    Some(h) => hash == h,
                    None => hash.len() == 0,
                }) && forall|j: int|
                    i <= j < k ==> !((#[trigger] packages[j]).text("format"@) == Some(format)
                        && packages[j].text_or("arch"@, ""@) == arch && packages[j].text("url"@)
                        is Some),
            None => forall|j: int|
                i <= j < packages.len() ==> !((#[trigger] packages[j]).text("format"@) == Some(
                    format,
                ) && packages[j].text_or("arch"@, ""@) == arch && packages[j].text("url"@) is Some),
        },
    decreases packages.len() - i,
{
    reveal_strlit("");
    if i < packages.len() {
        if package_suits(packages[i], arch, format) {
            assert(packages[i].text("format"@) == Some(format));
        } else {
            law_address_and_hash_are_of_one_package(packages, arch, format, i + 1);
        }
    }
}

/// The two architectures that there are packages for, each with its own name, and no other.
pub proof fn law_known_architectures(arch: Seq<char>)
    ensures
        arch_key(arch) matches Some(k) ==> (arch == "x86_64"@ && k == "x64"@) || (arch == "aarch64"@
            && k == "arm64"@),
        arch_key("x86_64"@) == Some("x64"@),
        arch_key("aarch64"@) == Some("arm64"@),
{
    reveal_strlit("x86_64");
    reveal_strlit("aarch64");
    assert("x86_64"@.len() != "aarch64"@.len());
}

/// Packages of the kind that the package manager takes are asked for: `deb` with `dpkg`, which comes
/// first, and `rpm` with `rpm`. Without either there are none.
pub proof fn law_format_goes_with_the_manager(dpkg: bool, rpm: bool)
    ensures
        dpkg ==> package_format(dpkg, rpm) == Some("deb"@),
        !dpkg && rpm ==> package_format(dpkg, rpm) == Some("rpm"@),
        package_format(dpkg, rpm) is None <==> !dpkg && !rpm,
{
}

/// A program is looked for in every directory of the search path that has a name, and nowhere else.
pub proof fn law_program_is_looked_for_along_the_path(
    search_path: Seq<char>,
    name: Seq<char>,
    place: Seq<char>,
)
    ensures
        program_places(search_path, name).contains(place) <==> exists|d: Seq<char>|
            #[trigger] split_on(search_path, ':').contains(d) && d.len() > 0 && place == path_join(
                d,
                name,
            ),
{
    let all = split_on(search_path, ':');
    let keep = |d: Seq<char>| d.len() > 0;
    let kept = all.filter(keep);
    let places = program_places(search_path, name);
    assert forall|d: Seq<char>| #[trigger] kept.contains(d) <==> all.contains(d) && d.len() > 0 by {
        broadcast use vstd::seq_lib::group_filter_ensures;
        if all.contains(d) && d.len() > 0 {
            let i = choose|i: int| 0 <= i < all.len() && all[i] == d;
            assert(keep(all[i]));
            assert(kept.contains(all[i]));
        }
        if kept.contains(d) {
            let i = choose|i: int| 0 <= i < kept.len() && kept[i] == d;
            assert(keep(kept[i]));
            all.lemma_filter_contains_rev(keep, d);
        }
    }
    if places.contains(place) {
        let i = choose|i: int| 0 <= i < places.len() && places[i] == place;
        assert(kept.contains(kept[i]));
        assert(all.contains(kept[i]));
    }
    if exists|d: Seq<char>|
        #[trigger] all.contains(d) && d.len() > 0 && place == path_join(d, name) {
        let d = choose|d: Seq<char>|
            #[trigger] all.contains(d) && d.len() > 0 && place == path_join(d, name);
        assert(kept.contains(d));
        let i = choose|i: int| 0 <= i < kept.len() && kept[i] == d;
        assert(places[i] == place);
    }
}

} // verus!
