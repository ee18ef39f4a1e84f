use vstd::prelude::*;
use vstd::string::StringExecFns;
use crate::paths::{home_app, home_app_path};
use crate::platform::OperatingSystem;

verus! {

/// What an application record holds, as mathematical values.
pub ghost struct AppView {
    pub name: Seq<char>,
    pub candidates: Seq<Seq<char>>,
    pub installed: Option<Seq<char>>,
}

/// The text of each path in a list.
pub open spec fn paths_of(v: Seq<String>) -> Seq<Seq<char>> {
    v.map_values(|s: String| s@)
}

/// The text of an optional path.
pub open spec fn path_opt(p: Option<String>) -> Option<Seq<char>> {
    match p {
        Some(s) => Some(s@),
        None => None,
    }
}

/// An application, the paths where it may be installed (in probe order),
/// and the first of them found to exist, once probing has run.
#[derive(Debug)]
pub struct AppCheck {
    pub name: String,
    pub candidates: Vec<String>,
    pub installed_path: Option<String>,
}

impl View for AppCheck {
    type V = AppView;

    open spec fn view(&self) -> AppView {
        AppView {
            name: self.name@,
            candidates: paths_of(self.candidates@),
            installed: path_opt(self.installed_path),
        }
    }
}

/// The view of each record in a list.
pub open spec fn views(apps: Seq<AppCheck>) -> Seq<AppView> {
    apps.map_values(|a: AppCheck| a@)
}

/// A record as it leaves the catalog: not yet probed.
pub open spec fn unprobed(name: Seq<char>, candidates: Seq<Seq<char>>) -> AppView {
    AppView { name, candidates, installed: None }
}

impl AppCheck {
    /// A record with no installation found yet.
    pub fn new(name: &str, candidates: Vec<String>) -> (r: AppCheck)
        requires
            candidates@.len() > 0,
        ensures
            r@ == unprobed(name@, paths_of(candidates@)),
    {
        AppCheck { name: String::from_str(name), candidates, installed_path: None }
    }

    /// The display label.
    pub fn name(&self) -> (r: &str)
        ensures
            r@ == self@.name,
    {
        self.name.as_str()
    }

    /// The candidate paths, in probe order.
    pub fn candidates(&self) -> (r: &Vec<String>)
        ensures
            paths_of(r@) == self@.candidates,
    {
        &self.candidates
    }

    /// The first candidate found to exist, if any.
    pub fn installed_path(&self) -> (r: &Option<String>)
        ensures
            path_opt(*r) == self@.installed,
    {
        &self.installed_path
    }
}

/// Where Bitwarden may be installed, in probe order.
pub open spec fn bitwarden_paths(home: Seq<char>) -> Seq<Seq<char>> {
    seq!["/Applications/Bitwarden.app"@, home_app(home, "Bitwarden.app"@)]
}

/// Where Chrome may be installed, in probe order.
pub open spec fn chrome_paths(home: Seq<char>) -> Seq<Seq<char>> {
    seq!["/Applications/Google Chrome.app"@, "/Applications/Google Chrome Dev.app"@, home_app(home, "Google Chrome.app"@), home_app(home, "Google Chrome Dev.app"@)]
}

/// Where Firefox may be installed, in probe order.
pub open spec fn firefox_paths(home: Seq<char>) -> Seq<Seq<char>> {
    seq!["/Applications/Firefox.app"@, "/Applications/Firefox Developer Edition.app"@, home_app(home, "Firefox.app"@), home_app(home, "Firefox Developer Edition.app"@)]
}

/// Where MacPorts may be installed, in probe order.
pub open spec fn macports_paths() -> Seq<Seq<char>> {
    seq!["/opt/local/bin/port"@]
}

/// Where Ollama may be installed, in probe order.
pub open spec fn ollama_paths(home: Seq<char>) -> Seq<Seq<char>> {
    seq!["/Applications/Ollama.app"@, home_app(home, "Ollama.app"@)]
}

/// Where Rancher Desktop may be installed, in probe order.
pub open spec fn rancherdesktop_paths(home: Seq<char>) -> Seq<Seq<char>> {
    seq!["/Applications/Rancher Desktop.app"@, home_app(home, "Rancher Desktop.app"@)]
}

/// Where Safari may be installed, in probe order.
pub open spec fn safari_paths(home: Seq<char>) -> Seq<Seq<char>> {
    seq!["/Applications/Safari.app"@, home_app(home, "Safari.app"@)]
}

/// Where Visual Studio Code may be installed, in probe order.
pub open spec fn visualstudiocode_paths(home: Seq<char>) -> Seq<Seq<char>> {
    seq!["/Applications/Visual Studio Code.app"@, home_app(home, "Visual Studio Code.app"@)]
}

/// Where WhatsApp may be installed, in probe order.
pub open spec fn whatsapp_paths(home: Seq<char>) -> Seq<Seq<char>> {
    seq!["/Applications/WhatsApp.app"@, home_app(home, "WhatsApp.app"@)]
}

/// The catalog: every application checked, in report order, none yet probed.
pub open spec fn catalog(home: Seq<char>) -> Seq<AppView> {
    seq![
        unprobed("Bitwarden"@, bitwarden_paths(home)),
        unprobed("Chrome"@, chrome_paths(home)),
        unprobed("Firefox"@, firefox_paths(home)),
        unprobed("MacPorts"@, macports_paths()),
        unprobed("Ollama"@, ollama_paths(home)),
        unprobed("Rancher Desktop"@, rancherdesktop_paths(home)),
        unprobed("Safari"@, safari_paths(home)),
        unprobed("Visual Studio Code"@, visualstudiocode_paths(home)),
        unprobed("WhatsApp"@, whatsapp_paths(home)),
    ]
}

/// The candidate paths of Bitwarden.
pub fn bitwarden_candidates(home: &str) -> (r: Vec<String>)
    ensures
        r@.len() == 2,
        paths_of(r@) == bitwarden_paths(home@),
{
    let mut v: Vec<String> = Vec::new();
    v.push(String::from_str("/Applications/Bitwarden.app"));
    v.push(home_app_path(home, "Bitwarden.app"));
    assert(paths_of(v@) =~= bitwarden_paths(home@));
    v
}

/// The candidate paths of Chrome.
pub fn chrome_candidates(home: &str) -> (r: Vec<String>)
    ensures
        r@.len() == 4,
        paths_of(r@) == chrome_paths(home@),
{
    let mut v: Vec<String> = Vec::new();
    v.push(String::from_str("/Applications/Google Chrome.app"));
    v.push(String::from_str("/Applications/Google Chrome Dev.app"));
    v.push(home_app_path(home, "Google Chrome.app"));
    v.push(home_app_path(home, "Google Chrome Dev.app"));
    assert(paths_of(v@) =~= chrome_paths(home@));
    v
}

/// The candidate paths of Firefox.
pub fn firefox_candidates(home: &str) -> (r: Vec<String>)
    ensures
        r@.len() == 4,
        paths_of(r@) == firefox_paths(home@),
{
    let mut v: Vec<String> = Vec::new();
    v.push(String::from_str("/Applications/Firefox.app"));
    v.push(String::from_str("/Applications/Firefox Developer Edition.app"));
    v.push(home_app_path(home, "Firefox.app"));
    v.push(home_app_path(home, "Firefox Developer Edition.app"));
    assert(paths_of(v@) =~= firefox_paths(home@));
    v
}

/// The candidate paths of MacPorts.
pub fn macports_candidates() -> (r: Vec<String>)
    ensures
        r@.len() == 1,
        paths_of(r@) == macports_paths(),
{
    let mut v: Vec<String> = Vec::new();
    v.push(String::from_str("/opt/local/bin/port"));
    assert(paths_of(v@) =~= macports_paths());
    v
}

/// The candidate paths of Ollama.
pub fn ollama_candidates(home: &str) -> (r: Vec<String>)
    ensures
        r@.len() == 2,
        paths_of(r@) == ollama_paths(home@),
{
    let mut v: Vec<String> = Vec::new();
    v.push(String::from_str("/Applications/Ollama.app"));
    v.push(home_app_path(home, "Ollama.app"));
    assert(paths_of(v@) =~= ollama_paths(home@));
    v
}

/// The candidate paths of Rancher Desktop.
pub fn rancherdesktop_candidates(home: &str) -> (r: Vec<String>)
    ensures
        r@.len() == 2,
        paths_of(r@) == rancherdesktop_paths(home@),
{
    let mut v: Vec<String> = Vec::new();
    v.push(String::from_str("/Applications/Rancher Desktop.app"));
    v.push(home_app_path(home, "Rancher Desktop.app"));
    assert(paths_of(v@) =~= rancherdesktop_paths(home@));
    v
}

/// The candidate paths of Safari.
pub fn safari_candidates(home: &str) -> (r: Vec<String>)
    ensures
        r@.len() == 2,
        paths_of(r@) == safari_paths(home@),
{
    let mut v: Vec<String> = Vec::new();
    v.push(String::from_str("/Applications/Safari.app"));
    v.push(home_app_path(home, "Safari.app"));
    assert(paths_of(v@) =~= safari_paths(home@));
    v
}

/// The candidate paths of Visual Studio Code.
pub fn visualstudiocode_candidates(home: &str) -> (r: Vec<String>)
    ensures
        r@.len() == 2,
        paths_of(r@) == visualstudiocode_paths(home@),
{
    let mut v: Vec<String> = Vec::new();
    v.push(String::from_str("/Applications/Visual Studio Code.app"));
    v.push(home_app_path(home, "Visual Studio Code.app"));
    assert(paths_of(v@) =~= visualstudiocode_paths(home@));
    v
}

/// The candidate paths of WhatsApp.
pub fn whatsapp_candidates(home: &str) -> (r: Vec<String>)
    ensures
        r@.len() == 2,
        paths_of(r@) == whatsapp_paths(home@),
{
    let mut v: Vec<String> = Vec::new();
    v.push(String::from_str("/Applications/WhatsApp.app"));
    v.push(home_app_path(home, "WhatsApp.app"));
    assert(paths_of(v@) =~= whatsapp_paths(home@));
    v
}

/// Builds the catalog for the given home directory. The platform does not
/// change the catalog: it only decides whether an advisory is shown.
pub fn build_apps(operating_system: OperatingSystem, home: &str) -> (r: Vec<AppCheck>)
    ensures
        views(r@) == catalog(home@),
{
    let _ = operating_system;
    let mut apps: Vec<AppCheck> = Vec::new();
    apps.push(AppCheck::new("Bitwarden", bitwarden_candidates(home)));
    apps.push(AppCheck::new("Chrome", chrome_candidates(home)));
    apps.push(AppCheck::new("Firefox", firefox_candidates(home)));
    apps.push(AppCheck::new("MacPorts", macports_candidates()));
    apps.push(AppCheck::new("Ollama", ollama_candidates(home)));
    apps.push(AppCheck::new("Rancher Desktop", rancherdesktop_candidates(home)));
    apps.push(AppCheck::new("Safari", safari_candidates(home)));
    apps.push(AppCheck::new("Visual Studio Code", visualstudiocode_candidates(home)));
    apps.push(AppCheck::new("WhatsApp", whatsapp_candidates(home)));
    assert(views(apps@) =~= catalog(home@));
    apps
}

/// The catalog holds nine records, in a fixed order, each with one to four
/// candidate paths and none yet resolved.
pub proof fn lemma_catalog_shape(home: Seq<char>)
    ensures
        catalog(home).len() == 9,
        forall|i: int|
            0 <= i < 9 ==> 1 <= #[trigger] catalog(home)[i].candidates.len() <= 4
                && catalog(home)[i].installed is None,
{
}

/// The catalog's names are distinct, at most 24 characters long, and none
/// ends in a space.
pub proof fn lemma_catalog_names(home: Seq<char>)
    ensures
        forall|i: int|
            0 <= i < catalog(home).len() ==> (#[trigger] catalog(home)[i]).name.len() <= 24 && (
            catalog(home)[i].name.len() > 0 ==> catalog(home)[i].name.last() != ' '),
        forall|i: int, j: int|
            0 <= i < catalog(home).len() && 0 <= j < catalog(home).len() && i != j ==> (
            #[trigger] catalog(home)[i]).name != (#[trigger] catalog(home)[j]).name,
{
    reveal_strlit("Bitwarden");
    reveal_strlit("Chrome");
    reveal_strlit("Firefox");
    reveal_strlit("MacPorts");
    reveal_strlit("Ollama");
    reveal_strlit("Rancher Desktop");
    reveal_strlit("Safari");
    reveal_strlit("Visual Studio Code");
    reveal_strlit("WhatsApp");
    let c = catalog(home);
    assert forall|i: int, j: int|
        0 <= i < c.len() && 0 <= j < c.len() && i != j implies (#[trigger] c[i]).name != (
        #[trigger] c[j]).name by {
        if c[i].name.len() == c[j].name.len() {
            assert(c[i].name[0] != c[j].name[0]);
        }
    }
}

} // verus!
