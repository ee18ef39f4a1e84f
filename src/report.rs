use vstd::prelude::*;
use vstd::string::StringExecFns;
use crate::catalog::{AppCheck, AppView, catalog, lemma_catalog_names, paths_of, views};
use crate::probe::{
    agrees_with, lemma_probe_matches_filesystem, probes_of, resolve_all, resolved,
};

verus! {

/// Column width of the application name.
pub const NAME_WIDTH: usize = 24;

/// Column width of the installed path.
pub const PATH_WIDTH: usize = 16;

/// `s` followed by spaces up to `width` characters; longer text is kept whole.
pub open spec fn pad_right_spec(s: Seq<char>, width: nat) -> Seq<char> {
    if s.len() >= width {
        s
    } else {
        s + Seq::new((width - s.len()) as nat, |i: int| ' ')
    }
}

/// The line for an installed application: its name and its path, each padded.
pub open spec fn installed_line(name: Seq<char>, path: Seq<char>) -> Seq<char> {
    pad_right_spec(name, NAME_WIDTH as nat) + seq![' '] + pad_right_spec(path, PATH_WIDTH as nat)
}

/// The line for an application that was not found: its padded name.
pub open spec fn missing_line(name: Seq<char>) -> Seq<char> {
    pad_right_spec(name, NAME_WIDTH as nat)
}

/// The lines of the "Installed" section, in catalog order.
pub open spec fn installed_section(apps: Seq<AppView>) -> Seq<Seq<char>>
    decreases apps.len(),
{
    if apps.len() == 0 {
        Seq::empty()
    } else {
        let rest = installed_section(apps.drop_last());
        match apps.last().installed {
            Some(p) => rest.push(installed_line(apps.last().name, p)),
            None => rest,
        }
    }
}

/// The lines of the "Not Installed" section, in catalog order.
pub open spec fn missing_section(apps: Seq<AppView>) -> Seq<Seq<char>>
    decreases apps.len(),
{
    if apps.len() == 0 {
        Seq::empty()
    } else {
        let rest = missing_section(apps.drop_last());
        match apps.last().installed {
            Some(p) => rest,
            None => rest.push(missing_line(apps.last().name)),
        }
    }
}

/// Heading of the first section, in green.
pub open spec fn installed_heading() -> Seq<char> {
    "\x1b[32mInstalled\x1b[0m"@
}

/// Heading of the second section, in red.
pub open spec fn missing_heading() -> Seq<char> {
    "\x1b[31mNot Installed\x1b[0m"@
}

/// The whole report, line by line: the installed section, an empty line, and
/// the section of applications not found.
pub open spec fn report_spec(apps: Seq<AppView>) -> Seq<Seq<char>> {
    seq![installed_heading()] + installed_section(apps) + seq![Seq::empty(), missing_heading()]
        + missing_section(apps)
}

/// Pads `s` with spaces up to `width` characters.
pub fn pad_right(s: &str, width: usize) -> (r: String)
    ensures
        r@ == pad_right_spec(s@, width as nat),
{
    let n = s.unicode_len();
    let mut r = String::from_str(s);
    if n >= width {
        return r;
    }
    let mut k: usize = n;
    while k < width
        invariant
            n == s@.len(),
            n <= k <= width,
            r@ == s@ + Seq::new((k - n) as nat, |i: int| ' '),
        decreases width - k,
    {
        proof {
            reveal_strlit(" ");
        }
        r.append(" ");
        k = k + 1;
        assert(r@ =~= s@ + Seq::new((k - n) as nat, |i: int| ' '));
    }
    r
}

/// Formats the line of an installed application.
pub fn format_installed(name: &str, path: &str) -> (r: String)
    ensures
        r@ == installed_line(name@, path@),
{
    let mut r = pad_right(name, NAME_WIDTH);
    proof {
        reveal_strlit(" ");
    }
    r.append(" ");
    let p = pad_right(path, PATH_WIDTH);
    r.append(p.as_str());
    r
}

/// Formats the line of an application that was not found.
pub fn format_missing(name: &str) -> (r: String)
    ensures
        r@ == missing_line(name@),
{
    pad_right(name, NAME_WIDTH)
}

/// The report on the probed records, one string per line.
pub fn report_lines(apps: &Vec<AppCheck>) -> (r: Vec<String>)
    ensures
        paths_of(r@) == report_spec(views(apps@)),
{
    let ghost v = views(apps@);
    let mut lines: Vec<String> = Vec::new();
    lines.push(String::from_str("\x1b[32mInstalled\x1b[0m"));
    assert(paths_of(lines@) =~= seq![installed_heading()] + installed_section(v.subrange(0, 0)));
    let mut i: usize = 0;
    while i < apps.len()
        invariant
            v == views(apps@),
            i <= apps@.len(),
            paths_of(lines@) == seq![installed_heading()] + installed_section(v.subrange(0, i as int)),
        decreases apps@.len() - i,
    {
        assert(v.subrange(0, i + 1).drop_last() =~= v.subrange(0, i as int));
        assert(v.subrange(0, i + 1).last() == v[i as int]);
        assert(v[i as int] == apps@[i as int]@);
        let ghost before = paths_of(lines@);
        match &apps[i].installed_path {
            Some(p) => {
                lines.push(format_installed(apps[i].name.as_str(), p.as_str()));
            },
            None => {},
        }
        proof {
            match v[i as int].installed {
                Some(p) => assert(paths_of(lines@) =~= before.push(installed_line(v[i as int].name, p))),
                None => assert(paths_of(lines@) =~= before),
            }
        }
        i = i + 1;
        assert(paths_of(lines@) =~= seq![installed_heading()] + installed_section(
            v.subrange(0, i as int),
        ));
    }
    let ghost head = paths_of(lines@);
    lines.push(String::new());
    lines.push(String::from_str("\x1b[31mNot Installed\x1b[0m"));
    assert(v.subrange(0, i as int) =~= v);
    assert(paths_of(lines@) =~= head + seq![Seq::empty(), missing_heading()]);
    assert(paths_of(lines@) =~= head + seq![Seq::empty(), missing_heading()] + missing_section(
        v.subrange(0, 0),
    ));
    let mut j: usize = 0;
    while j < apps.len()
        invariant
            v == views(apps@),
            j <= apps@.len(),
            paths_of(lines@) == head + seq![Seq::empty(), missing_heading()] + missing_section(
                v.subrange(0, j as int),
            ),
        decreases apps@.len() - j,
    {
        assert(v.subrange(0, j + 1).drop_last() =~= v.subrange(0, j as int));
        assert(v.subrange(0, j + 1).last() == v[j as int]);
        assert(v[j as int] == apps@[j as int]@);
        let ghost before = paths_of(lines@);
        if apps[j].installed_path.is_none() {
            lines.push(format_missing(apps[j].name.as_str()));
        }
        proof {
            match v[j as int].installed {
                Some(p) => assert(paths_of(lines@) =~= before),
                None => assert(paths_of(lines@) =~= before.push(missing_line(v[j as int].name))),
            }
        }
        j = j + 1;
        assert(paths_of(lines@) =~= head + seq![Seq::empty(), missing_heading()] + missing_section(
            v.subrange(0, j as int),
        ));
    }
    assert(v.subrange(0, j as int) =~= v);
    lines
}

/// Whether a record has a resolved path.
pub open spec fn is_installed(a: AppView) -> bool {
    a.installed is Some
}

/// The report partitions the records: the "Installed" section has one line
/// per record with a resolved path, the "Not Installed" section one line per
/// record without, so together they have one line per record.
pub proof fn lemma_report_partition(apps: Seq<AppView>)
    ensures
        installed_section(apps).len() == apps.filter(|a: AppView| is_installed(a)).len(),
        missing_section(apps).len() == apps.filter(|a: AppView| !is_installed(a)).len(),
        installed_section(apps).len() + missing_section(apps).len() == apps.len(),
        report_spec(apps).len() == apps.len() + 3,
    decreases apps.len(),
{
    reveal(Seq::filter);
    if apps.len() > 0 {
        lemma_report_partition(apps.drop_last());
    }
}

/// Every line of each section is the line of one record of that section, and
/// every record has its line in its own section.
pub proof fn lemma_section_members(apps: Seq<AppView>)
    ensures
        forall|m: int|
            0 <= m < installed_section(apps).len() ==> exists|j: int|
                0 <= j < apps.len() && is_installed(apps[j]) && #[trigger] installed_section(
                    apps,
                )[m] == installed_line(apps[j].name, apps[j].installed->0),
        forall|m: int|
            0 <= m < missing_section(apps).len() ==> exists|j: int|
                0 <= j < apps.len() && !is_installed(apps[j]) && #[trigger] missing_section(
                    apps,
                )[m] == missing_line(apps[j].name),
        forall|j: int|
            0 <= j < apps.len() && is_installed(#[trigger] apps[j]) ==> installed_section(
                apps,
            ).contains(installed_line(apps[j].name, apps[j].installed->0)),
        forall|j: int|
            0 <= j < apps.len() && !is_installed(#[trigger] apps[j]) ==> missing_section(
                apps,
            ).contains(missing_line(apps[j].name)),
    decreases apps.len(),
{
    if apps.len() > 0 {
        let rest = apps.drop_last();
        let n = apps.len() - 1;
        lemma_section_members(rest);
        let i_rest = installed_section(rest);
        let m_rest = missing_section(rest);
        assert forall|m: int| 0 <= m < installed_section(apps).len() implies exists|j: int|
            0 <= j < apps.len() && is_installed(apps[j]) && #[trigger] installed_section(apps)[m]
                == installed_line(apps[j].name, apps[j].installed->0) by {
            if m < i_rest.len() {
                assert(installed_section(apps)[m] == i_rest[m]);
                let j = choose|j: int|
                    0 <= j < rest.len() && is_installed(rest[j]) && i_rest[m] == installed_line(
                        rest[j].name,
                        rest[j].installed->0,
                    );
                assert(apps[j] == rest[j]);
            } else {
                assert(apps[n] == apps.last());
            }
        }
        assert forall|m: int| 0 <= m < missing_section(apps).len() implies exists|j: int|
            0 <= j < apps.len() && !is_installed(apps[j]) && #[trigger] missing_section(apps)[m]
                == missing_line(apps[j].name) by {
            if m < m_rest.len() {
                assert(missing_section(apps)[m] == m_rest[m]);
                let j = choose|j: int|
                    0 <= j < rest.len() && !is_installed(rest[j]) && m_rest[m] == missing_line(
                        rest[j].name,
                    );
                assert(apps[j] == rest[j]);
            } else {
                assert(apps[n] == apps.last());
            }
        }
        assert forall|j: int| 0 <= j < apps.len() && is_installed(#[trigger] apps[j]) implies installed_section(
            apps,
        ).contains(installed_line(apps[j].name, apps[j].installed->0)) by {
            let line = installed_line(apps[j].name, apps[j].installed->0);
            if j < n {
                assert(rest[j] == apps[j]);
                let m = choose|m: int| 0 <= m < i_rest.len() && i_rest[m] == line;
                assert(installed_section(apps)[m] == line);
            } else {
                assert(installed_section(apps).last() == line);
            }
        }
        assert forall|j: int| 0 <= j < apps.len() && !is_installed(#[trigger] apps[j]) implies missing_section(
            apps,
        ).contains(missing_line(apps[j].name)) by {
            let line = missing_line(apps[j].name);
            if j < n {
                assert(rest[j] == apps[j]);
                let m = choose|m: int| 0 <= m < m_rest.len() && m_rest[m] == line;
                assert(missing_section(apps)[m] == line);
            } else {
                assert(missing_section(apps).last() == line);
            }
        }
    }
}

/// Names that fit the name column and do not end in a space stay apart once padded.
proof fn lemma_padded_names_distinct(a: Seq<char>, b: Seq<char>)
    requires
        a.len() <= NAME_WIDTH,
        b.len() <= NAME_WIDTH,
        a.len() > 0 ==> a.last() != ' ',
        b.len() > 0 ==> b.last() != ' ',
        pad_right_spec(a, NAME_WIDTH as nat) == pad_right_spec(b, NAME_WIDTH as nat),
    ensures
        a == b,
{
    let pa = pad_right_spec(a, NAME_WIDTH as nat);
    if a.len() < b.len() {
        assert(pa[b.len() - 1] == ' ');
    } else if b.len() < a.len() {
        assert(pa[a.len() - 1] == ' ');
    } else {
        assert forall|i: int| 0 <= i < a.len() implies a[i] == b[i] by {
            assert(pa[i] == a[i]);
        }
        assert(a =~= b);
    }
}

/// With distinct names that fit the name column and do not end in a space, no
/// record has a line in both sections: an installed record has its line among
/// the installed and none among the missing, and a missing record the reverse.
pub proof fn lemma_report_sections_disjoint(apps: Seq<AppView>)
    requires
        forall|i: int|
            0 <= i < apps.len() ==> (#[trigger] apps[i]).name.len() <= NAME_WIDTH && (
            apps[i].name.len() > 0 ==> apps[i].name.last() != ' '),
        forall|i: int, j: int|
            0 <= i < apps.len() && 0 <= j < apps.len() && i != j ==> (#[trigger] apps[i]).name
                != (#[trigger] apps[j]).name,
    ensures
        forall|k: int|
            0 <= k < apps.len() && is_installed(#[trigger] apps[k]) ==> installed_section(
                apps,
            ).contains(installed_line(apps[k].name, apps[k].installed->0)) && !missing_section(
                apps,
            ).contains(missing_line(apps[k].name)),
        forall|k: int|
            0 <= k < apps.len() && !is_installed(#[trigger] apps[k]) ==> missing_section(
                apps,
            ).contains(missing_line(apps[k].name)) && forall|p: Seq<char>|
                !installed_section(apps).contains(#[trigger] installed_line(apps[k].name, p)),
{
    lemma_section_members(apps);
    let ins = installed_section(apps);
    let mis = missing_section(apps);
    assert forall|k: int| 0 <= k < apps.len() && is_installed(#[trigger] apps[k]) implies !mis.contains(
        missing_line(apps[k].name),
    ) by {
        if mis.contains(missing_line(apps[k].name)) {
            let m = choose|m: int| 0 <= m < mis.len() && mis[m] == missing_line(apps[k].name);
            let j = choose|j: int|
                0 <= j < apps.len() && !is_installed(apps[j]) && #[trigger] mis[m] == missing_line(
                    apps[j].name,
                );
            lemma_padded_names_distinct(apps[j].name, apps[k].name);
        }
    }
    assert forall|k: int, p: Seq<char>|
        0 <= k < apps.len() && !is_installed(#[trigger] apps[k]) implies !ins.contains(
        #[trigger] installed_line(apps[k].name, p),
    ) by {
        let line = installed_line(apps[k].name, p);
        if ins.contains(line) {
            let m = choose|m: int| 0 <= m < ins.len() && ins[m] == line;
            let j = choose|j: int|
                0 <= j < apps.len() && is_installed(apps[j]) && #[trigger] ins[m] == installed_line(
                    apps[j].name,
                    apps[j].installed->0,
                );
            let other = installed_line(apps[j].name, apps[j].installed->0);
            let w = NAME_WIDTH as int;
            assert(other.subrange(0, w) =~= pad_right_spec(apps[j].name, NAME_WIDTH as nat));
            assert(line.subrange(0, w) =~= pad_right_spec(apps[k].name, NAME_WIDTH as nat));
            lemma_padded_names_distinct(apps[j].name, apps[k].name);
        }
    }
}

/// In the report on the probed catalog, each application has its line in
/// exactly the section that its probe result puts it in, and none in the other.
pub proof fn lemma_catalog_report_disjoint(home: Seq<char>, found: Seq<Seq<bool>>)
    requires
        probes_of(catalog(home), found),
    ensures
        forall|k: int|
            0 <= k < 9 && is_installed(#[trigger] resolve_all(catalog(home), found)[k])
                ==> installed_section(resolve_all(catalog(home), found)).contains(
                installed_line(
                    catalog(home)[k].name,
                    resolve_all(catalog(home), found)[k].installed->0,
                ),
            ) && !missing_section(resolve_all(catalog(home), found)).contains(
                missing_line(catalog(home)[k].name),
            ),
        forall|k: int|
            0 <= k < 9 && !is_installed(#[trigger] resolve_all(catalog(home), found)[k])
                ==> missing_section(resolve_all(catalog(home), found)).contains(
                missing_line(catalog(home)[k].name),
            ) && forall|p: Seq<char>|
                !installed_section(resolve_all(catalog(home), found)).contains(
                    #[trigger] installed_line(catalog(home)[k].name, p),
                ),
{
    let apps = resolve_all(catalog(home), found);
    lemma_catalog_names(home);
    assert forall|i: int| 0 <= i < apps.len() implies apps[i].name == catalog(home)[i].name by {
        assert(apps[i] == resolved(catalog(home)[i], found[i]));
    }
    lemma_report_sections_disjoint(apps);
}

/// Two runs of the whole pipeline on the same home directory, against the
/// same set of existing paths, give the same report line for line.
pub proof fn lemma_pipeline_deterministic(
    home: Seq<char>,
    fs: Set<Seq<char>>,
    found1: Seq<Seq<bool>>,
    found2: Seq<Seq<bool>>,
)
    requires
        probes_of(catalog(home), found1),
        probes_of(catalog(home), found2),
        forall|k: int|
            0 <= k < catalog(home).len() ==> agrees_with(
                catalog(home)[k].candidates,
                #[trigger] found1[k],
                fs,
            ),
        forall|k: int|
            0 <= k < catalog(home).len() ==> agrees_with(
                catalog(home)[k].candidates,
                #[trigger] found2[k],
                fs,
            ),
    ensures
        resolve_all(catalog(home), found1) == resolve_all(catalog(home), found2),
        report_spec(resolve_all(catalog(home), found1)) == report_spec(
            resolve_all(catalog(home), found2),
        ),
{
    let c = catalog(home);
    assert forall|k: int| 0 <= k < c.len() implies resolved(c[k], found1[k]) == resolved(
        c[k],
        found2[k],
    ) by {
        lemma_probe_matches_filesystem(c[k].candidates, found1[k], fs);
        lemma_probe_matches_filesystem(c[k].candidates, found2[k], fs);
    }
    assert(resolve_all(c, found1) =~= resolve_all(c, found2));
}

} // verus!
