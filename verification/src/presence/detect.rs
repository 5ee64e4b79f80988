//! What is running, by name. The list is a small one of our own and whatever a
//! person has added to it.

use crate::net::{ascii_lowered, to_ascii_lower};
use crate::protocol::{Activity, ActivityKind};
use crate::table::{TextTable, as_map};
use crate::text::{opt_str, trim, trimmed};
use vstd::prelude::*;
use vstd::string::*;

verus! {

/// The programs that are known, by the name of their file in lower case.
pub open spec fn known() -> Seq<(Seq<char>, Seq<char>)> {
    seq![
        ("factorio"@, "Factorio"@),
        ("factorio.exe"@, "Factorio"@),
        ("stardew valley"@, "Stardew Valley"@),
        ("stardew valley.exe"@, "Stardew Valley"@),
        ("dota2"@, "Dota 2"@),
        ("dota2.exe"@, "Dota 2"@),
        ("cs2"@, "Counter-Strike 2"@),
        ("cs2.exe"@, "Counter-Strike 2"@),
        ("hl2_linux"@, "Half-Life 2"@),
        ("hl2.exe"@, "Half-Life 2"@),
        ("eu4"@, "Europa Universalis IV"@),
        ("eu4.exe"@, "Europa Universalis IV"@),
        ("rimworldlinux"@, "RimWorld"@),
        ("rimworldwin64.exe"@, "RimWorld"@),
        ("hollow_knight"@, "Hollow Knight"@),
        ("hollow_knight.exe"@, "Hollow Knight"@),
        ("celeste"@, "Celeste"@),
        ("celeste.exe"@, "Celeste"@),
        ("balatro"@, "Balatro"@),
        ("balatro.exe"@, "Balatro"@),
        ("minecraft"@, "Minecraft"@),
        ("javaw.exe"@, "Minecraft"@),
        ("terraria"@, "Terraria"@),
        ("terraria.exe"@, "Terraria"@),
    ]
}

/// Pairs of borrowed texts, as mathematics.
pub open spec fn pair_views(s: Seq<(&'static str, &'static str)>) -> Seq<(Seq<char>, Seq<char>)> {
    s.map_values(|p: (&'static str, &'static str)| (p.0@, p.1@))
}

fn known_pairs() -> (r: Vec<(&'static str, &'static str)>)
    ensures
        pair_views(r@) == known(),
{
    let mut v: Vec<(&'static str, &'static str)> = Vec::new();
    v.push(("factorio", "Factorio"));
    v.push(("factorio.exe", "Factorio"));
    v.push(("stardew valley", "Stardew Valley"));
    v.push(("stardew valley.exe", "Stardew Valley"));
    v.push(("dota2", "Dota 2"));
    v.push(("dota2.exe", "Dota 2"));
    v.push(("cs2", "Counter-Strike 2"));
    v.push(("cs2.exe", "Counter-Strike 2"));
    v.push(("hl2_linux", "Half-Life 2"));
    v.push(("hl2.exe", "Half-Life 2"));
    v.push(("eu4", "Europa Universalis IV"));
    v.push(("eu4.exe", "Europa Universalis IV"));
    v.push(("rimworldlinux", "RimWorld"));
    v.push(("rimworldwin64.exe", "RimWorld"));
    v.push(("hollow_knight", "Hollow Knight"));
    v.push(("hollow_knight.exe", "Hollow Knight"));
    v.push(("celeste", "Celeste"));
    v.push(("celeste.exe", "Celeste"));
    v.push(("balatro", "Balatro"));
    v.push(("balatro.exe", "Balatro"));
    v.push(("minecraft", "Minecraft"));
    v.push(("javaw.exe", "Minecraft"));
    v.push(("terraria", "Terraria"));
    v.push(("terraria.exe", "Terraria"));
    assert(pair_views(v@) =~= known());
    v
}

/// The names of programs, as mathematics.
pub open spec fn named(m: Map<Seq<char>, String>) -> Map<Seq<char>, Seq<char>> {
    m.map_values(|s: String| s@)
}

/// The list with what a person added: files in lower case, ends trimmed, empty ones
/// passed over. What they added wins.
pub open spec fn with_extra(extra: Seq<(String, String)>) -> Map<Seq<char>, Seq<char>>
    decreases extra.len(),
{
    if extra.len() == 0 {
        as_map(known())
    } else {
        let before = with_extra(extra.drop_last());
        let exe = ascii_lowered(trimmed(extra.last().0@));
        let name = trimmed(extra.last().1@);
        if exe.len() > 0 && name.len() > 0 {
            before.insert(exe, name)
        } else {
            before
        }
    }
}

/// A process: when it was started in seconds, the name of its file, and its own.
#[derive(Debug, Clone, PartialEq, Eq)]
pub struct Process {
    pub started: u64,
    pub exe: Option<String>,
    pub name: String,
}

/// The list of programs.
#[derive(Debug)]
pub struct Detector {
    catalogue: TextTable<String>,
}

/// What a process is known as: by its file, else by its own name.
pub open spec fn known_as(list: Map<Seq<char>, Seq<char>>, p: Process) -> Option<Seq<char>> {
    let by_file: Option<Seq<char>> = match p.exe {
        Some(e) => if list.dom().contains(ascii_lowered(e@)) {
            Some(list[ascii_lowered(e@)])
        } else {
            None
        },
        None => None,
    };
    match by_file {
        Some(n) => Some(n),
        None => if list.dom().contains(ascii_lowered(p.name@)) {
            Some(list[ascii_lowered(p.name@)])
        } else {
            None
        },
    }
}

/// The process that has run longest of those that are known; the first of those
/// that have run as long.
pub open spec fn longest(list: Map<Seq<char>, Seq<char>>, processes: Seq<Process>) -> Option<
    (u64, Seq<char>),
>
    decreases processes.len(),
{
    if processes.len() == 0 {
        None
    } else {
        let before = longest(list, processes.drop_last());
        let p = processes.last();
        match known_as(list, p) {
            None => before,
            Some(name) => match before {
                Some(best) => if p.started < best.0 {
                    Some((p.started, name))
                } else {
                    before
                },
                None => Some((p.started, name)),
            },
        }
    }
}

impl Detector {
    /// The list of programs, by the name of their file.
    pub closed spec fn list(&self) -> Map<Seq<char>, Seq<char>> {
        named(self.catalogue@)
    }

    /// A detector for what is known and what a person added.
    pub fn new(extra: &Vec<(String, String)>) -> (r: Detector)
        ensures
            r.list() == with_extra(extra@),
    {
        let pairs: Vec<(&'static str, &'static str)> = known_pairs();
        let ghost all = pair_views(pairs@);
        let mut catalogue: TextTable<String> = TextTable::new();
        let mut i: usize = 0;
        assert(all.take(0) =~= Seq::empty());
        assert(named(catalogue@) =~= as_map(all.take(0)));
        while i < pairs.len()
            invariant
                i <= pairs@.len(),
                all == pair_views(pairs@),
                named(catalogue@) == as_map(all.take(i as int)),
            decreases pairs@.len() - i,
        {
            let ghost before = catalogue@;
            let name: String = pairs[i].1.to_owned();
            catalogue.insert(pairs[i].0.to_owned(), name);
            proof {
                assert(all.take(i + 1).drop_last() =~= all.take(i as int));
                assert(all.take(i + 1).last() == all[i as int]);
                assert(named(catalogue@) =~= named(before).insert(all[i as int].0, name@));
            }
            i = i + 1;
        }
        assert(all.take(i as int) =~= all);
        let mut k: usize = 0;
        assert(extra@.take(0) =~= Seq::empty());
        while k < extra.len()
            invariant
                k <= extra@.len(),
                named(catalogue@) == with_extra(extra@.take(k as int)),
            decreases extra@.len() - k,
        {
            let ghost before = catalogue@;
            let exe: String = to_ascii_lower(trim(extra[k].0.as_str()).as_str());
            let name: String = trim(extra[k].1.as_str());
            assert(extra@.take(k + 1).drop_last() =~= extra@.take(k as int));
            if exe.as_str().unicode_len() > 0 && name.as_str().unicode_len() > 0 {
                let ghost key = exe@;
                let ghost value = name@;
                catalogue.insert(exe, name);
                assert(named(catalogue@) =~= named(before).insert(key, value));
            }
            k = k + 1;
        }
        assert(extra@.take(k as int) =~= extra@);
        Detector { catalogue }
    }

    /// What a process is known as.
    pub fn lookup(&self, process: &Process) -> (r: Option<&str>)
        ensures
            opt_str(r) == known_as(self.list(), *process),
    {
        if let Some(exe) = &process.exe {
            if let Some(name) = self.catalogue.get(to_ascii_lower(exe.as_str()).as_str()) {
                return Some(name.as_str());
            }
        }
        match self.catalogue.get(to_ascii_lower(process.name.as_str()).as_str()) {
            Some(name) => Some(name.as_str()),
            None => None,
        }
    }

    /// What a person is playing: the known program that has run longest.
    pub fn scan(&self, processes: &Vec<Process>) -> (r: Option<Activity>)
        requires
            forall|i: int|
                0 <= i < processes@.len() ==> (#[trigger] processes@[i]).started <= i64::MAX / 1000,
        ensures
            match longest(self.list(), processes@) {
                None => r is None,
                Some(best) => r is Some && r->Some_0.kind == ActivityKind::Playing && r->Some_0.name@
                    == best.1 && r->Some_0.details is None && r->Some_0.state is None
                    && r->Some_0.started_ms is Some && r->Some_0.started_ms->Some_0 == best.0
                    * 1000,
            },
    {
        let mut best: Option<(u64, &str)> = None;
        let mut i: usize = 0;
        assert(processes@.take(0) =~= Seq::empty());
        while i < processes.len()
            invariant
                i <= processes@.len(),
                forall|k: int|
                    0 <= k < processes@.len() ==> (#[trigger] processes@[k]).started <= i64::MAX
                        / 1000,
                best matches Some(b) ==> b.0 <= i64::MAX / 1000,
                longest(self.list(), processes@.take(i as int)) == match best {
                    Some(b) => Some((b.0, b.1@)),
                    None => None,
                },
            decreases processes@.len() - i,
        {
            let p: &Process = &processes[i];
            assert(processes@.take(i + 1).drop_last() =~= processes@.take(i as int));
            if let Some(name) = self.lookup(p) {
                let earlier: bool = match best {
                    Some((prev, _)) => p.started < prev,
                    None => true,
                };
                if earlier {
                    best = Some((p.started, name));
                }
            }
            i = i + 1;
        }
        assert(processes@.take(i as int) =~= processes@);
        match best {
            None => None,
            Some((started, name)) => Some(
                Activity {
                    kind: ActivityKind::Playing,
                    name: name.to_owned(),
                    details: None,
                    state: None,
                    started_ms: Some(started as i64 * 1000),
                },
            ),
        }
    }
}

} // verus!
