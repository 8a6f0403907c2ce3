//! Finding the keyboard, and telling when it is gone.
use vstd::prelude::*;
use vstd::string::*;

use crate::text::law_trimming_undoes_padding;
use crate::text::{begins_with, decimal_text, is_space, trimmed};
use crate::text::{decimal, has_prefix, same_text, trim};

verus! {

/// The error number of a device that was removed from a running handle.
pub const ENODEV: i32 = 19;

/// The error number of a device node that is gone.
pub const ENOENT: i32 = 2;

/// The error number says that the device is gone.
pub open spec fn is_gone(code: Option<i32>) -> bool {
    code == Some(ENODEV) || code == Some(ENOENT)
}

/// Whether an error is caused by the device being disconnected. `codes` holds
/// the error number, where there is one, of the error and of each error that
/// led to it.
pub fn is_device_disconnected(codes: &Vec<Option<i32>>) -> (r: bool)
    ensures
        r == exists|i: int| 0 <= i < codes@.len() && is_gone(#[trigger] codes@[i]),
        r <==> exists|i: int|
            0 <= i < codes@.len() && (#[trigger] codes@[i] == Some(19i32) || codes@[i] == Some(
                2i32,
            )),
{
    let mut i: usize = 0;
    while i < codes.len()
        invariant
            i <= codes@.len(),
            forall|j: int| 0 <= j < i ==> !is_gone(#[trigger] codes@[j]),
        decreases codes@.len() - i,
    {
        match codes[i] {
            Some(code) => {
                if code == ENODEV || code == ENOENT {
                    assert(is_gone(codes@[i as int]));
                    return true;
                }
            },
            None => {},
        }
        i = i + 1;
    }
    false
}

/// What opening an event node gave.
#[derive(Debug)]
pub enum Probe {
    /// It opened, and says its name where it has one.
    Opened(Option<String>),
    /// It may not be read.
    PermissionDenied,
    /// It did not open for another reason.
    Failed,
}

/// The file is an event node.
pub open spec fn is_event_node(file_name: Seq<char>) -> bool {
    begins_with(file_name, "event"@)
}

/// The node is the keyboard of that name.
pub open spec fn is_match(target: Seq<char>, probe: Probe) -> bool {
    probe matches Probe::Opened(Some(name)) && trimmed(name@) == target
}

/// The message for a search that found nothing.
pub open spec fn not_found_text(target: Seq<char>, denied: nat, any_node: bool) -> Seq<char> {
    if denied > 0 {
        "Device '"@ + target + "' not found — "@ + decimal_text(denied)
            + " input device(s) unreadable due to permissions.\nFix: sudo usermod -aG input $USER  (then log out and back in)"@
    } else if !any_node {
        "Device '"@ + target + "' not found — no event nodes in /dev/input yet"@
    } else {
        "Device '"@ + target + "' not found in /dev/input"@
    }
}

/// A search through the event nodes for the keyboard of a given name.
pub struct DeviceScan {
    target: String,
    permission_denied_count: u64,
    found_any_event_node: bool,
}

impl DeviceScan {
    /// The name that is looked for.
    pub closed spec fn target(&self) -> Seq<char> {
        self.target@
    }

    /// How many nodes could not be read.
    pub closed spec fn denied(&self) -> nat {
        self.permission_denied_count as nat
    }

    /// Whether there was an event node at all.
    pub closed spec fn any_node(&self) -> bool {
        self.found_any_event_node
    }

    /// `later` is the search once it has seen the name of a directory entry.
    pub open spec fn sees_name(&self, file_name: Seq<char>, later: &DeviceScan) -> bool {
        &&& later.target() == self.target()
        &&& later.denied() == self.denied()
        &&& later.any_node() == (self.any_node() || is_event_node(file_name))
    }

    /// `later` is the search once it has taken in what opening a node gave.
    pub open spec fn sees_probe(&self, probe: Probe, later: &DeviceScan) -> bool {
        &&& later.target() == self.target()
        &&& later.denied() == self.denied() + if probe is PermissionDenied {
            1nat
        } else {
            0nat
        }
        &&& later.any_node() == self.any_node()
    }

    /// A search that has looked at nothing yet.
    pub fn new(target: &str) -> (r: Self)
        ensures
            r.target() == target@,
            r.denied() == 0,
            !r.any_node(),
    {
        DeviceScan {
            target: target.to_owned(),
            permission_denied_count: 0,
            found_any_event_node: false,
        }
    }

    /// Whether the directory entry of this name is worth opening.
    pub fn wants(&mut self, file_name: &str) -> (r: bool)
        ensures
            r == is_event_node(file_name@),
            old(self).sees_name(file_name@, final(self)),
    {
        if has_prefix(file_name, "event") {
            self.found_any_event_node = true;
            true
        } else {
            false
        }
    }

    /// Takes in what opening a node gave. Says whether it is the keyboard.
    pub fn observe(&mut self, probe: &Probe) -> (r: bool)
        requires
            old(self).denied() < u64::MAX,
        ensures
            r == is_match(old(self).target(), *probe),
            r ==> match *probe {
                Probe::Opened(Some(name)) => trimmed(name@).len() == old(self).target().len()
                    && forall|i: int|
                    0 <= i < old(self).target().len() ==> trimmed(name@)[i] == old(
                        self,
                    ).target()[i],
                _ => false,
            },
            old(self).sees_probe(*probe, final(self)),
    {
        match probe {
            Probe::Opened(name) => match name {
                Some(name) => same_text(trim(name.as_str()), self.target.as_str()),
                None => false,
            },
            Probe::PermissionDenied => {
                self.permission_denied_count = self.permission_denied_count + 1;
                false
            },
            Probe::Failed => false,
        }
    }

    /// How many nodes could not be read.
    pub fn denied_count(&self) -> (r: u64)
        ensures
            r == self.denied(),
    {
        self.permission_denied_count
    }

    /// The message for a search that found nothing.
    pub fn failure(&self) -> (r: String)
        ensures
            r@ == not_found_text(self.target(), self.denied(), self.any_node()),
    {
        let head: String = "Device '".to_owned().concat(self.target.as_str());
        if self.permission_denied_count > 0 {
            let count: String = decimal(self.permission_denied_count);
            head.concat("' not found — ").concat(count.as_str()).concat(
                " input device(s) unreadable due to permissions.\nFix: sudo usermod -aG input $USER  (then log out and back in)",
            )
        } else if !self.found_any_event_node {
            head.concat("' not found — no event nodes in /dev/input yet")
        } else {
            head.concat("' not found in /dev/input")
        }
    }
}

/// A directory entry: the name of the file and what opening it gives.
pub struct Entry {
    pub file_name: Seq<char>,
    pub probe: Probe,
}

/// The entry is the event node of the keyboard.
pub open spec fn is_wanted(target: Seq<char>, e: Entry) -> bool {
    is_event_node(e.file_name) && is_match(target, e.probe)
}

/// `named` is the search once it has seen the name of the entry, and `later`
/// once it has opened the entry as well, where that is an event node.
pub open spec fn looks_at(
    scan: &DeviceScan,
    e: Entry,
    named: &DeviceScan,
    later: &DeviceScan,
) -> bool {
    &&& scan.sees_name(e.file_name, named)
    &&& if is_event_node(e.file_name) {
        named.sees_probe(e.probe, later)
    } else {
        later == named
    }
}

/// The search took the entry for the keyboard: it opened the entry, and what
/// that gave is a match.
pub open spec fn takes(named: &DeviceScan, e: Entry) -> bool {
    is_event_node(e.file_name) && is_match(named.target(), e.probe)
}

/// How many of the event nodes could not be read.
pub open spec fn denied_among(entries: Seq<Entry>) -> nat
    decreases entries.len(),
{
    if entries.len() == 0 {
        0
    } else {
        denied_among(entries.drop_last()) + if is_event_node(entries.last().file_name)
            && entries.last().probe is PermissionDenied {
            1nat
        } else {
            0nat
        }
    }
}

/// A search that looks at one entry after the other takes an entry for the
/// keyboard if and only if it is an event node of the wanted name. One that
/// took none knows how many nodes it could not read, and whether there was a
/// node at all.
pub proof fn law_search_knows_what_it_saw(
    scans: Seq<DeviceScan>,
    named: Seq<DeviceScan>,
    entries: Seq<Entry>,
)
    requires
        scans.len() == entries.len() + 1,
        named.len() == entries.len(),
        scans[0].denied() == 0,
        !scans[0].any_node(),
        forall|i: int|
            #![trigger entries[i]]
            0 <= i < entries.len() ==> looks_at(&scans[i], entries[i], &named[i], &scans[i + 1]),
    ensures
        forall|i: int|
            #![trigger entries[i]]
            0 <= i < entries.len() ==> takes(&named[i], entries[i]) == is_wanted(
                scans[0].target(),
                entries[i],
            ),
        scans.last().target() == scans[0].target(),
        scans.last().denied() == denied_among(entries),
        scans.last().any_node() == exists|i: int|
            0 <= i < entries.len() && is_event_node((#[trigger] entries[i]).file_name),
    decreases entries.len(),
{
    if entries.len() > 0 {
        let n = entries.len() - 1;
        let front = entries.drop_last();
        let s = scans.drop_last();
        let k = named.drop_last();
        assert forall|i: int| #![trigger front[i]] 0 <= i < front.len() implies looks_at(
            &s[i],
            front[i],
            &k[i],
            &s[i + 1],
        ) by {
            assert(front[i] == entries[i]);
            assert(s[i] == scans[i] && s[i + 1] == scans[i + 1]);
            assert(k[i] == named[i]);
        }
        law_search_knows_what_it_saw(s, k, front);
        assert(looks_at(&scans[n], entries[n], &named[n], &scans[n + 1]));
        assert(s.last() == scans[n]);
        assert forall|i: int| #![trigger entries[i]] 0 <= i < entries.len() implies takes(
            &named[i],
            entries[i],
        ) == is_wanted(scans[0].target(), entries[i]) by {
            if i < n {
                assert(front[i] == entries[i]);
                assert(k[i] == named[i]);
            }
        }
        if s.last().any_node() {
            let i = choose|i: int|
                0 <= i < front.len() && is_event_node((#[trigger] front[i]).file_name);
            assert(entries[i] == front[i]);
        }
        if exists|i: int|
            0 <= i < entries.len() && is_event_node((#[trigger] entries[i]).file_name) {
            let i = choose|i: int|
                0 <= i < entries.len() && is_event_node((#[trigger] entries[i]).file_name);
            if i < n {
                assert(front[i] == entries[i]);
            }
        }
    }
}

/// Only the exact name counts. A node that says its name with white space
/// around it is the keyboard of that name, and of no shorter, longer or other
/// name.
pub proof fn law_only_the_exact_name_matches(
    target: Seq<char>,
    said: String,
    front: Seq<char>,
    name: Seq<char>,
    back: Seq<char>,
)
    requires
        said@ == front + name + back,
        forall|i: int| 0 <= i < front.len() ==> is_space(#[trigger] front[i]),
        forall|i: int| 0 <= i < back.len() ==> is_space(#[trigger] back[i]),
        name.len() > 0 ==> !is_space(name[0]) && !is_space(name.last()),
    ensures
        is_match(target, Probe::Opened(Some(said))) <==> target.len() == name.len() && forall|
            i: int,
        |
            0 <= i < name.len() ==> target[i] == name[i],
{
    law_trimming_undoes_padding(front, name, back);
    if target.len() == name.len() && forall|i: int| 0 <= i < name.len() ==> target[i] == name[i] {
        assert(target =~= name);
    }
}

/// No node is the keyboard of two names.
pub proof fn law_a_node_has_one_name(target: Seq<char>, other: Seq<char>, probe: Probe)
    requires
        is_match(target, probe),
        is_match(other, probe),
    ensures
        target == other,
{
}

/// A node that could not be opened, or says no name, is never the keyboard.
pub proof fn law_nameless_nodes_do_not_match(target: Seq<char>)
    ensures
        !is_match(target, Probe::Opened(None)),
        !is_match(target, Probe::PermissionDenied),
        !is_match(target, Probe::Failed),
{
}

/// The event nodes are the files whose name is `event` and then something.
pub proof fn law_event_nodes_by_name(file_name: Seq<char>)
    ensures
        is_event_node("event"@ + file_name),
        is_event_node(file_name) <==> file_name.len() >= 5 && file_name[0] == 'e' && file_name[1]
            == 'v' && file_name[2] == 'e' && file_name[3] == 'n' && file_name[4] == 't',
{
    reveal_strlit("event");
    let word = "event"@;
    assert(("event"@ + file_name).take(5) =~= word);
    if is_event_node(file_name) {
        let head = file_name.take(5);
        assert(head[0] == 'e' && head[1] == 'v' && head[2] == 'e' && head[3] == 'n' && head[4]
            == 't');
    } else if file_name.len() >= 5 && file_name[0] == 'e' && file_name[1] == 'v' && file_name[2]
        == 'e' && file_name[3] == 'n' && file_name[4] == 't' {
        assert(file_name.take(5) =~= word);
    }
}

/// The message for a search that found nothing names the keyboard that was
/// looked for, and says why: how many nodes could not be read, or that there
/// was none.
pub proof fn law_search_failure_says_why(target: Seq<char>, denied: nat, any_node: bool)
    ensures
        ({
            let text = not_found_text(target, denied, any_node);
            &&& denied > 0 ==> text == "Device '"@ + target + "' not found — "@ + decimal_text(
                denied,
            )
                + " input device(s) unreadable due to permissions.\nFix: sudo usermod -aG input $USER  (then log out and back in)"@
            &&& denied == 0 && !any_node ==> text == "Device '"@ + target
                + "' not found — no event nodes in /dev/input yet"@
            &&& denied == 0 && any_node ==> text == "Device '"@ + target
                + "' not found in /dev/input"@
        }),
{
}

} // verus!
