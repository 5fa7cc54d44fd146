//! Plugins: the scripts found in the plugin directory, the editor's list of
//! them, and starting and stopping one.

use vstd::prelude::*;
use vstd::string::StringExecFns;
use crate::cancel::{CancellationFlag, start_file};
use crate::host::{Worker, WorkerState};

verus! {

/// A plugin script: its display name and the path of its source file.
#[derive(Debug, Clone, PartialEq, Eq)]
pub struct PluginScript {
    pub name: String,
    pub source_path: String,
}

/// One entry of a directory listing, as the scan saw it.
#[derive(Debug, Clone, PartialEq, Eq)]
pub struct DirEntryInfo {
    pub file_name: String,
    pub is_file: bool,
}

pub open spec fn script_suffix() -> Seq<char> {
    seq!['.', 'l', 'u', 'a']
}

/// A script file's name: something, then `.lua`.
pub open spec fn is_script_name(n: Seq<char>) -> bool {
    n.len() > 4 && n.subrange(n.len() - 4, n.len() as int) == script_suffix()
}

/// The name without its `.lua`.
pub open spec fn stem_of(n: Seq<char>) -> Seq<char> {
    n.subrange(0, n.len() - 4)
}

pub open spec fn is_script(e: DirEntryInfo) -> bool {
    e.is_file && is_script_name(e.file_name@)
}

/// The plugins of a directory listing, in the listing's order: one for each
/// regular file named `<stem>.lua`, named by its stem, at `dir/<file name>`.
pub open spec fn scripts_of(dir: Seq<char>, es: Seq<DirEntryInfo>) -> Seq<(Seq<char>, Seq<char>)>
    decreases es.len(),
{
    if es.len() == 0 {
        Seq::empty()
    } else {
        let front = scripts_of(dir, es.drop_last());
        let e = es.last();
        if is_script(e) {
            front.push((stem_of(e.file_name@), dir + seq!['/'] + e.file_name@))
        } else {
            front
        }
    }
}

pub open spec fn scripts_view(v: Seq<PluginScript>) -> Seq<(Seq<char>, Seq<char>)> {
    v.map_values(|s: PluginScript| (s.name@, s.source_path@))
}

fn has_script_suffix(n: &str) -> (r: bool)
    ensures
        r == is_script_name(n@),
{
    let len = n.unicode_len();
    if len <= 4 {
        return false;
    }
    let r = n.get_char(len - 4) == '.' && n.get_char(len - 3) == 'l' && n.get_char(len - 2) == 'u'
        && n.get_char(len - 1) == 'a';
    assert(r ==> n@.subrange(len - 4, len as int) =~= script_suffix());
    assert(n@.subrange(len - 4, len as int) == script_suffix() ==> n@[len - 4] == '.' && n@[len
        - 3] == 'l' && n@[len - 2] == 'u' && n@[len - 1] == 'a') by {
        let t = n@.subrange(len - 4, len as int);
        if t == script_suffix() {
            assert(t[0] == '.' && t[1] == 'l' && t[2] == 'u' && t[3] == 'a');
        }
    }
    r
}

/// The plugins that a listing of the directory `dir` holds. A directory that
/// was just created, or that holds no script, gives none.
pub fn list_scripts(dir: &str, entries: &Vec<DirEntryInfo>) -> (r: Vec<PluginScript>)
    ensures
        scripts_view(r@) == scripts_of(dir@, entries@),
{
    let mut r: Vec<PluginScript> = Vec::new();
    let mut i: usize = 0;
    assert(scripts_view(r@) =~= Seq::empty());
    while i < entries.len()
        invariant
            i <= entries@.len(),
            scripts_view(r@) == scripts_of(dir@, entries@.subrange(0, i as int)),
        decreases entries@.len() - i,
    {
        let e = &entries[i];
        assert(entries@.subrange(0, i + 1).drop_last() =~= entries@.subrange(0, i as int));
        assert(entries@.subrange(0, i + 1).last() == entries@[i as int]);
        if e.is_file && has_script_suffix(e.file_name.as_str()) {
            let n = e.file_name.as_str();
            let len = n.unicode_len();
            let stem = n.substring_char(0, len - 4).to_owned();
            let mut path = dir.to_owned();
            path.append("/");
            path.append(n);
            proof {
                reveal_strlit("/");
            }
            let ghost old_r = r@;
            r.push(PluginScript { name: stem, source_path: path });
            assert(scripts_view(r@) =~= scripts_view(old_r).push((stem@, path@)));
            assert(path@ == dir@ + seq!['/'] + e.file_name@);
        }
        i = i + 1;
    }
    assert(entries@.subrange(0, i as int) =~= entries@);
    r
}

/// Readies the run of `script`: clears any stop left from an earlier run and
/// gives the worker that will drive the run.
pub fn start(flag: &mut CancellationFlag, script: &PluginScript) -> (w: Worker)
    ensures
        *final(flag) == CancellationFlag::Running,
        w.state() == WorkerState::Idle,
        w.path() == script.source_path@,
{
    start_file(flag);
    Worker::new(script.source_path.clone())
}

/// A plugin as the editor holds it.
#[derive(Debug, Clone, PartialEq, Eq)]
pub struct Plugin {
    pub code: String,
    pub name_buffer: String,
    pub name: String,
}

/// The editor's list of plugins and which one is open.
#[derive(Debug)]
pub struct Plugins {
    pub active: bool,
    pub ceditor: bool,
    pub fetched: bool,
    pub selected_plugin: Option<usize>,
    pub list: Vec<Plugin>,
}

impl Plugins {
    pub fn new() -> (r: Plugins)
        ensures
            !r.active && !r.ceditor && !r.fetched,
            r.selected_plugin is None,
            r.list@.len() == 0,
    {
        Plugins { active: false, ceditor: false, fetched: false, selected_plugin: None, list: Vec::new() }
    }

    /// The selection points into the list, where there is one.
    pub open spec fn wf(&self) -> bool {
        self.selected_plugin matches Some(p) ==> p < self.list@.len()
    }

    pub fn get(&self) -> (r: Option<usize>)
        ensures
            r == self.selected_plugin,
    {
        self.selected_plugin
    }

    /// The selected plugin, to be edited in place.
    pub fn get_selected(&mut self) -> (r: Option<&mut Plugin>)
        requires
            old(self).wf(),
        ensures
            old(self).selected_plugin is None ==> r is None && *final(self) == *old(self),
            old(self).selected_plugin matches Some(p) ==> (r matches Some(m) && *m == old(self).list@[p as int]
                && final(self).list@ == old(self).list@.update(p as int, *final(m))
                && final(self).selected_plugin == old(self).selected_plugin
                && final(self).active == old(self).active
                && final(self).ceditor == old(self).ceditor
                && final(self).fetched == old(self).fetched),
    {
        match self.selected_plugin {
            Some(p) => Some(&mut self.list[p]),
            None => None,
        }
    }
}

} // verus!
