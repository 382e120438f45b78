//! Finding the app of a window: from the ancestry of its process, and from the ancestry
//! of the window itself.

use std::collections::HashSet;

use vstd::prelude::*;
use vstd::utf8::*;

use crate::lists::has_number;
use crate::text;
use crate::text::{
    bytes_of, chars_of, find_char, read_u32, same_bytes, same_text, split_nonempty_bytes,
    split_words, string_of, text_from_utf8,
};

verus! {

/// The bytes of a text.
pub open spec fn bytes_for(string: Seq<char>) -> Seq<u8> {
    encode_utf8(string)
}

/// The app ID that one argument of a launcher gives: `AppId=` before a number that is not
/// zero.
pub open spec fn argument_app_id(argument: Seq<u8>) -> Option<u32> {
    let prefix = bytes_for("AppId="@);
    if prefix.is_prefix_of(argument) {
        let value = argument.skip(prefix.len() as int);
        if valid_utf8(value) {
            match text::parse_nat_up_to(decode_utf8(value), u32::MAX as nat) {
                Some(number) if number != 0 => Some(number as u32),
                _ => None,
            }
        } else {
            None
        }
    } else {
        None
    }
}

/// The app ID that the arguments of a launcher give: that of the first fitting argument
/// between `SteamLaunch` and the separator `--`.
pub open spec fn launch_app_id(arguments: Seq<Seq<u8>>, launched: bool) -> Option<u32>
    decreases arguments.len(),
{
    if arguments.len() == 0 || arguments[0] == bytes_for("--"@) {
        None
    } else if arguments[0] == bytes_for("SteamLaunch"@) {
        launch_app_id(arguments.drop_first(), true)
    } else if launched && argument_app_id(arguments[0]) is Some {
        argument_app_id(arguments[0])
    } else {
        launch_app_id(arguments.drop_first(), launched)
    }
}

fn read_argument_app_id(argument: &Vec<u8>) -> (app_id: Option<u32>)
    ensures
        app_id == argument_app_id(argument@),
{
    let prefix = "AppId=".as_bytes();
    let ghost spec_prefix = bytes_for("AppId="@);
    if argument.len() < prefix.len() {
        return None;
    }
    let front = bytes_of(argument.as_slice(), 0, prefix.len());
    if !same_bytes(front.as_slice(), prefix) {
        assert(!spec_prefix.is_prefix_of(argument@)) by {
            if spec_prefix.is_prefix_of(argument@) {
                assert(front@ =~= spec_prefix);
            }
        }
        return None;
    }
    let value = bytes_of(argument.as_slice(), prefix.len(), argument.len());
    assert(value@ =~= argument@.skip(spec_prefix.len() as int));
    assert(spec_prefix.is_prefix_of(argument@)) by {
        assert(front@ =~= argument@.take(spec_prefix.len() as int));
    }
    match text_from_utf8(value.as_slice()) {
        Some(string) => match read_u32(string.as_str()) {
            Some(number) => if number != 0 {
                Some(number)
            } else {
                None
            },
            None => None,
        },
        None => None,
    }
}

/// Read the app ID out of the command line of Steam's process reaper, whose arguments end
/// in zero bytes.
#[must_use]
pub fn app_id_from_reaper_command_line(command_line: &[u8]) -> (app_id: Option<u32>)
    ensures
        app_id == launch_app_id(text::split_nonempty(command_line@, 0), false),
{
    let arguments = split_nonempty_bytes(command_line, 0);
    let ghost all = text::byte_strings(arguments@);
    let mut launched = false;
    let mut i: usize = 0;
    assert(all.skip(0) =~= all);
    while i < arguments.len()
        invariant
            i <= arguments@.len(),
            all == text::byte_strings(arguments@),
            all == text::split_nonempty(command_line@, 0),
            launch_app_id(all, false) == launch_app_id(all.skip(i as int), launched),
        decreases arguments@.len() - i,
    {
        let ghost rest = all.skip(i as int);
        assert(rest[0] == arguments@[i as int]@);
        assert(rest.drop_first() =~= all.skip(i + 1));
        if same_bytes(arguments[i].as_slice(), "--".as_bytes()) {
            return None;
        }
        if same_bytes(arguments[i].as_slice(), "SteamLaunch".as_bytes()) {
            launched = true;
        } else if launched {
            let app_id = read_argument_app_id(&arguments[i]);
            if app_id.is_some() {
                return app_id;
            }
        }
        i = i + 1;
    }
    assert(all.skip(i as int) =~= Seq::<Seq<u8>>::empty());
    None
}

/// What `/proc/<pid>/stat` tells of a process.
#[derive(Debug, PartialEq, Eq)]
pub struct ProcessStat {
    pub name: String,
    pub parent: u32,
}

/// The index of the last occurrence of a character, or the length.
pub open spec fn last_index(text: Seq<char>, wanted: char) -> int {
    match text.index_of_last(wanted) {
        Some(index) => index,
        None => text.len() as int,
    }
}

/// The index of the first occurrence of a character, or the length.
pub open spec fn first_char_index(text: Seq<char>, wanted: char) -> int {
    match text.index_of_first(wanted) {
        Some(index) => index,
        None => text.len() as int,
    }
}

/// A line without a parenthesized name, or with one whose parentheses are in order.
pub open spec fn stat_in_order(stat: Seq<char>) -> bool {
    stat.contains('(') && stat.contains(')') ==> first_char_index(stat, '(') < last_index(
        stat,
        ')',
    )
}

/// The number in the second field behind the name, zero if there is none.
pub open spec fn stat_parent(fields: Seq<Seq<char>>) -> u32 {
    if fields.len() < 2 {
        0
    } else {
        match text::parse_nat_up_to(fields[1], u32::MAX as nat) {
            Some(parent) => parent as u32,
            None => 0,
        }
    }
}

fn find_last_char(chars: &[char], wanted: char) -> (index: usize)
    ensures
        index == last_index(chars@, wanted),
        chars@.contains(wanted) ==> index < chars@.len(),
        !chars@.contains(wanted) ==> index == chars@.len(),
{
    proof {
        chars@.index_of_last_ensures(wanted);
    }
    let mut i: usize = chars.len();
    while i > 0
        invariant
            i <= chars@.len(),
            forall|j: int| i <= j < chars@.len() ==> chars@[j] != wanted,
        decreases i,
    {
        if chars[i - 1] == wanted {
            proof {
                chars@.index_of_last_ensures(wanted);
                assert(chars@.contains(chars@[i - 1]));
            }
            return i - 1;
        }
        i = i - 1;
    }
    proof {
        chars@.index_of_last_ensures(wanted);
        assert(!chars@.contains(wanted));
    }
    chars.len()
}

/// Whether the parentheses around the process name are in order, as the kernel writes
/// them.
#[must_use]
pub fn is_stat_in_order(stat: &str) -> (in_order: bool)
    ensures
        in_order == stat_in_order(stat@),
{
    let chars = chars_of(stat);
    let open: usize = find_char(&chars, '(', 0);
    let close: usize = find_last_char(&chars, ')');
    proof {
        chars@.index_of_first_ensures('(');
        assert(open < chars@.len() <==> chars@.contains('('));
    }
    if open == chars.len() || close == chars.len() {
        true
    } else {
        open < close
    }
}

/// Read the name of a process and its parent.
#[must_use]
pub fn parse_stat(stat: &str) -> (parsed: Option<ProcessStat>)
    requires
        stat_in_order(stat@),
    ensures
        match parsed {
            Some(process) => {
                let open = first_char_index(stat@, '(');
                let close = last_index(stat@, ')');
                &&& stat@.contains('(') && stat@.contains(')')
                &&& process.name@ == stat@.subrange(open + 1, close)
                &&& process.parent == stat_parent(text::words(stat@.skip(close + 1)))
            },
            None => !(stat@.contains('(') && stat@.contains(')')),
        },
{
    let chars = chars_of(stat);
    let open: usize = find_char(&chars, '(', 0);
    let close: usize = find_last_char(&chars, ')');
    proof {
        chars@.index_of_first_ensures('(');
        assert(open < chars@.len() <==> chars@.contains('('));
    }
    if open == chars.len() || close == chars.len() {
        return None;
    }
    let name = string_of(&chars, open + 1, close);
    let fields = split_words(&chars, close + 1);
    let ghost spec_fields = text::words(stat@.skip(close + 1));
    assert(spec_fields.len() == fields@.len());
    let parent: u32 = if fields.len() < 2 {
        0
    } else {
        assert(spec_fields[1] == fields@[1]@);
        match read_u32(fields[1].as_str()) {
            Some(parent) => parent,
            None => 0,
        }
    };
    Some(ProcessStat { name, parent })
}

/// What to do next in search of an app ID.
#[derive(Clone, Copy, Debug, PartialEq, Eq, Structural)]
pub enum ProcessStep {
    /// Read the state of a process.
    ReadStat(u32),
    /// Read the command line of a process.
    ReadCommandLine(u32),
    /// The search is over.
    Found(u32),
}

/// A search for the app ID among the ancestors of a process.
#[derive(Debug)]
pub struct ProcessWalk {
    step: ProcessStep,
    parent: u32,
    visited: HashSet<u32>,
}

/// Where a search for an app ID stands.
pub struct ProcessWalkView {
    pub step: ProcessStep,
    /// Parent of the process whose command line is read.
    pub parent: u32,
    /// Processes whose state was asked for.
    pub visited: Set<u32>,
}

impl View for ProcessWalk {
    type V = ProcessWalkView;

    closed spec fn view(&self) -> ProcessWalkView {
        ProcessWalkView {
            step: self.step,
            parent: self.parent,
            visited: self.visited@,
        }
    }
}

impl ProcessWalkView {
    /// The search goes on with a process, unless there is none or it was visited before.
    pub open spec fn visit(self, pid: u32) -> ProcessWalkView {
        if pid == 0 || self.visited.contains(pid) {
            ProcessWalkView { step: ProcessStep::Found(0), ..self }
        } else {
            ProcessWalkView {
                step: ProcessStep::ReadStat(pid),
                visited: self.visited.insert(pid),
                ..self
            }
        }
    }
}

impl ProcessWalk {
    /// Start a search at a process.
    #[must_use]
    pub fn new(pid: u32) -> (walk: Self)
        ensures
            walk@ == (ProcessWalkView {
                step: ProcessStep::Found(0),
                parent: 0,
                visited: Set::empty(),
            }).visit(pid),
    {
        let mut walk = Self { step: ProcessStep::Found(0), parent: 0, visited: HashSet::new() };
        walk.visit(pid);
        walk
    }

    fn visit(&mut self, pid: u32)
        ensures
            final(self)@ == old(self)@.visit(pid),
    {
        broadcast use vstd::std_specs::hash::group_hash_axioms;

        if pid == 0 || self.visited.contains(&pid) {
            self.step = ProcessStep::Found(0);
        } else {
            self.step = ProcessStep::ReadStat(pid);
            let _added = self.visited.insert(pid);
        }
    }

    /// What to do next.
    #[must_use]
    pub fn step(&self) -> (step: ProcessStep)
        ensures
            step == self@.step,
    {
        self.step
    }

    /// Take in the state of the process that was read, or its absence. The command line
    /// of a `reaper` is looked at next, and otherwise the parent.
    pub fn stat_read(&mut self, stat: Option<ProcessStat>)
        requires
            old(self)@.step is ReadStat,
        ensures
            final(self)@ == (match stat {
                Some(process) => if process.name@ == "reaper"@ {
                    ProcessWalkView {
                        step: ProcessStep::ReadCommandLine(old(self)@.step->ReadStat_0),
                        parent: process.parent,
                        ..old(self)@
                    }
                } else {
                    (ProcessWalkView { parent: process.parent, ..old(self)@ }).visit(
                        process.parent,
                    )
                },
                None => ProcessWalkView { step: ProcessStep::Found(0), ..old(self)@ },
            }),
    {
        match stat {
            Some(process) => {
                self.parent = process.parent;
                if same_text(process.name.as_str(), "reaper") {
                    if let ProcessStep::ReadStat(pid) = self.step {
                        self.step = ProcessStep::ReadCommandLine(pid);
                    }
                } else {
                    self.visit(process.parent);
                }
            },
            None => {
                self.step = ProcessStep::Found(0);
            },
        }
    }

    /// Take in the command line that was read, or its absence. Without an app ID the
    /// search goes on with the parent.
    pub fn command_line_read(&mut self, command_line: Option<&[u8]>)
        requires
            old(self)@.step is ReadCommandLine,
        ensures
            final(self)@ == (match command_line {
                Some(bytes) => match launch_app_id(text::split_nonempty(bytes@, 0), false) {
                    Some(app_id) => ProcessWalkView {
                        step: ProcessStep::Found(app_id),
                        ..old(self)@
                    },
                    None => old(self)@.visit(old(self)@.parent),
                },
                None => old(self)@.visit(old(self)@.parent),
            }),
    {
        let app_id: Option<u32> = match command_line {
            Some(bytes) => app_id_from_reaper_command_line(bytes),
            None => None,
        };
        match app_id {
            Some(app_id) => {
                self.step = ProcessStep::Found(app_id);
            },
            None => {
                let parent: u32 = self.parent;
                self.visit(parent);
            },
        }
    }
}

/// A process is visited only once, so that a search ends even where parents form a
/// circle.
pub proof fn lemma_walk_visits_once(walk: ProcessWalkView, pid: u32)
    requires
        walk.visited.contains(pid),
    ensures
        walk.visit(pid).step == ProcessStep::Found(0),
        walk.visit(pid).visited == walk.visited,
{
}

/// The process of a window from the replies of the resource extension: the first number
/// of the first client that has one, unless it is zero.
pub open spec fn client_pid(ids: Seq<Seq<u32>>) -> Option<u32>
    decreases ids.len(),
{
    if ids.len() == 0 {
        None
    } else if ids[0].len() > 0 {
        if ids[0][0] != 0 {
            Some(ids[0][0])
        } else {
            None
        }
    } else {
        client_pid(ids.drop_first())
    }
}

/// The contents of a vector of vectors.
pub open spec fn number_lists(lists: Seq<Vec<u32>>) -> Seq<Seq<u32>> {
    lists.map_values(|list: Vec<u32>| list@)
}

/// Find the process of a window in the replies of the resource extension.
#[must_use]
pub fn find_client_pid(ids: &Vec<Vec<u32>>) -> (pid: Option<u32>)
    ensures
        pid == client_pid(number_lists(ids@)),
{
    let ghost all = number_lists(ids@);
    let mut i: usize = 0;
    assert(all.skip(0) =~= all);
    while i < ids.len()
        invariant
            i <= ids@.len(),
            all == number_lists(ids@),
            client_pid(all) == client_pid(all.skip(i as int)),
        decreases ids@.len() - i,
    {
        assert(all.skip(i as int)[0] == ids@[i as int]@);
        assert(all.skip(i as int).drop_first() =~= all.skip(i + 1));
        if ids[i].len() > 0 {
            let pid: u32 = ids[i][0];
            return if pid != 0 {
                Some(pid)
            } else {
                None
            };
        }
        i = i + 1;
    }
    assert(all.skip(i as int) =~= Seq::<Seq<u32>>::empty());
    None
}

/// A walk from a drawable up to the child of the root window.
#[derive(Debug)]
pub struct AncestorWalk {
    root: u32,
    ancestors: Vec<u32>,
    ended: bool,
}

/// Where a walk among windows stands.
pub struct AncestorWalkView {
    pub root: u32,
    /// The drawable and the parents found so far.
    pub ancestors: Seq<u32>,
    pub ended: bool,
}

impl View for AncestorWalk {
    type V = AncestorWalkView;

    closed spec fn view(&self) -> AncestorWalkView {
        AncestorWalkView {
            root: self.root,
            ancestors: self.ancestors@,
            ended: self.ended,
        }
    }
}

impl AncestorWalkView {
    /// No window twice, never the root window, and somewhere to go on from.
    pub open spec fn well_formed(self) -> bool {
        &&& self.ancestors.no_duplicates()
        &&& !self.ancestors.contains(self.root)
        &&& self.ended || self.ancestors.len() > 0
    }
}

impl AncestorWalk {
    /// Start a walk at a window.
    #[must_use]
    pub fn new(root: u32, window: u32) -> (walk: Self)
        ensures
            walk@.well_formed(),
            walk@ == (AncestorWalkView {
                root,
                ancestors: if window == root {
                    Seq::empty()
                } else {
                    seq![window]
                },
                ended: window == root,
            }),
    {
        let mut ancestors: Vec<u32> = Vec::new();
        if window != root {
            ancestors.push(window);
        }
        let walk = Self { root, ancestors, ended: window == root };
        assert(walk@.ancestors =~= (if window == root {
            Seq::empty()
        } else {
            seq![window]
        }));
        walk
    }

    /// The window whose parent is asked for next.
    #[must_use]
    pub fn query(&self) -> (window: Option<u32>)
        requires
            self@.well_formed(),
        ensures
            window == (if self@.ended {
                None
            } else {
                Some(self@.ancestors.last())
            }),
    {
        if self.ended {
            None
        } else {
            Some(self.ancestors[self.ancestors.len() - 1])
        }
    }

    /// Take in the parent of the window that was asked for.
    pub fn parent_found(&mut self, parent: u32)
        requires
            old(self)@.well_formed(),
            !old(self)@.ended,
        ensures
            final(self)@.well_formed(),
            final(self)@ == (if parent == 0 || parent == old(self)@.root
                || old(self)@.ancestors.contains(parent) {
                AncestorWalkView { ended: true, ..old(self)@ }
            } else {
                AncestorWalkView { ancestors: old(self)@.ancestors.push(parent), ..old(self)@ }
            }),
    {
        if parent == 0 || parent == self.root || has_number(&self.ancestors, parent) {
            self.ended = true;
        } else {
            let ghost before = self.ancestors@;
            self.ancestors.push(parent);
            assert(!self.ancestors@.contains(self.root)) by {
                if self.ancestors@.contains(self.root) {
                    let i = self.ancestors@.index_of(self.root);
                    assert(before.contains(before[i]));
                }
            }
        }
    }

    /// The drawable and each of its parents below the root window.
    #[must_use]
    pub fn ancestors(self) -> (ancestors: Vec<u32>)
        ensures
            ancestors@ == self@.ancestors,
    {
        self.ancestors
    }
}

/// An argument names an app if it is `AppId=` with a number behind it that is not zero and
/// fits thirty-two bits.
pub proof fn lemma_arguments_name_apps(number: nat, value: Seq<char>)
    ensures
        0 < number <= 0xffff_ffff ==> argument_app_id(
            encode_utf8("AppId="@) + encode_utf8(text::decimal(number)),
        ) == Some(number as u32),
        number == 0 || number > 0xffff_ffff ==> argument_app_id(
            encode_utf8("AppId="@) + encode_utf8(text::decimal(number)),
        ) is None,
        text::parse_nat(value) is None ==> argument_app_id(
            encode_utf8("AppId="@) + encode_utf8(value),
        ) is None,
{
    let prefix = encode_utf8("AppId="@);
    text::lemma_decimals_are_read_back(number, 0xffff_ffff);
    let digits = encode_utf8(text::decimal(number));
    encode_utf8_valid_utf8(text::decimal(number));
    encode_utf8_decode_utf8(text::decimal(number));
    assert((prefix + digits).skip(prefix.len() as int) =~= digits);
    assert((prefix + digits).take(prefix.len() as int) =~= prefix);
    let bytes = encode_utf8(value);
    encode_utf8_valid_utf8(value);
    encode_utf8_decode_utf8(value);
    assert((prefix + bytes).skip(prefix.len() as int) =~= bytes);
    assert((prefix + bytes).take(prefix.len() as int) =~= prefix);
}

/// An argument that does not start with `AppId=` names no app.
pub proof fn lemma_other_arguments_name_no_app(argument: Seq<u8>)
    requires
        !encode_utf8("AppId="@).is_prefix_of(argument),
    ensures
        argument_app_id(argument) is None,
{
}

/// Whether an argument stands where an app is looked for: behind `SteamLaunch`, and with no
/// `--` up to there.
pub open spec fn is_looked_at(arguments: Seq<Seq<u8>>, at: int) -> bool {
    &&& exists|i: int| 0 <= i < at && #[trigger] arguments[i] == encode_utf8("SteamLaunch"@)
    &&& forall|i: int| 0 <= i <= at ==> #[trigger] arguments[i] != encode_utf8("--"@)
}

/// The app of a launch is the first one that is named behind `SteamLaunch` and in front of
/// `--`. Where none is named there, there is none.
pub proof fn lemma_launches_name_their_app(arguments: Seq<Seq<u8>>) -> (at: int)
    ensures
        match launch_app_id(arguments, false) {
            Some(app_id) => {
                &&& 0 <= at < arguments.len()
                &&& is_looked_at(arguments, at)
                &&& argument_app_id(arguments[at]) == Some(app_id)
                &&& forall|i: int|
                    0 <= i < at && #[trigger] is_looked_at(arguments, i) ==> argument_app_id(
                        arguments[i],
                    ) is None
            },
            None => forall|i: int|
                0 <= i < arguments.len() && #[trigger] is_looked_at(arguments, i)
                    ==> argument_app_id(arguments[i]) is None,
        },
{
    assert(arguments.skip(0) =~= arguments);
    lemma_launch_from(arguments, 0, false)
}

proof fn lemma_launch_from(arguments: Seq<Seq<u8>>, from: int, launched: bool) -> (at: int)
    requires
        0 <= from <= arguments.len(),
        launched <==> exists|i: int|
            0 <= i < from && #[trigger] arguments[i] == encode_utf8("SteamLaunch"@),
        forall|i: int| 0 <= i < from ==> #[trigger] arguments[i] != encode_utf8("--"@),
        forall|i: int|
            0 <= i < from && #[trigger] is_looked_at(arguments, i) ==> argument_app_id(
                arguments[i],
            ) is None,
    ensures
        match launch_app_id(arguments.skip(from), launched) {
            Some(app_id) => {
                &&& 0 <= at < arguments.len()
                &&& is_looked_at(arguments, at)
                &&& argument_app_id(arguments[at]) == Some(app_id)
                &&& forall|i: int|
                    0 <= i < at && #[trigger] is_looked_at(arguments, i) ==> argument_app_id(
                        arguments[i],
                    ) is None
            },
            None => forall|i: int|
                0 <= i < arguments.len() && #[trigger] is_looked_at(arguments, i)
                    ==> argument_app_id(arguments[i]) is None,
        },
    decreases arguments.len() - from,
{
    let rest = arguments.skip(from);
    if from == arguments.len() {
        from
    } else {
        let here = arguments[from];
        assert(rest[0] == here);
        assert(rest.drop_first() =~= arguments.skip(from + 1));
        if here == encode_utf8("--"@) {
            assert forall|i: int|
                0 <= i < arguments.len() && #[trigger] is_looked_at(
                    arguments,
                    i,
                ) implies argument_app_id(arguments[i]) is None by {
                assert(arguments[from] == here);
            }
            from
        } else {
            lemma_launch_is_no_app();
            assert(here == encode_utf8("SteamLaunch"@) ==> argument_app_id(here) is None);
            if here != encode_utf8("SteamLaunch"@) && launched && argument_app_id(here) is Some {
                from
            } else {
                let next = launched || here == encode_utf8("SteamLaunch"@);
                if next && !launched {
                    assert(arguments[from] == encode_utf8("SteamLaunch"@));
                }
                assert forall|i: int|
                    0 <= i < from + 1 && #[trigger] is_looked_at(
                        arguments,
                        i,
                    ) implies argument_app_id(arguments[i]) is None by {
                    if i == from && !launched {
                        assert(!is_looked_at(arguments, from));
                    }
                }
                lemma_launch_from(arguments, from + 1, next)
            }
        }
    }
}

proof fn lemma_launch_is_no_app()
    ensures
        argument_app_id(encode_utf8("SteamLaunch"@)) is None,
{
    reveal_strlit("SteamLaunch");
    reveal_strlit("AppId=");
    let launch = encode_utf8("SteamLaunch"@);
    let prefix = encode_utf8("AppId="@);
    encode_utf8_first_scalar("SteamLaunch"@);
    encode_utf8_first_scalar("AppId="@);
    if prefix.is_prefix_of(launch) {
        assert(prefix[0] == launch[0]);
        reveal_with_fuel(encode_utf8, 2);
        assert(encode_scalar('A' as u32).len() == 1);
        assert(encode_scalar('S' as u32).len() == 1);
        assert(prefix[0] == encode_scalar('A' as u32)[0]);
        assert(launch[0] == encode_scalar('S' as u32)[0]);
        assert(0x41u32 as u8 != 0x53u32 as u8) by (bit_vector);
    }
}

/// The name of a process stands between the first bracket and the last, whatever brackets it
/// holds itself, and its parent is the second word behind it.
pub proof fn lemma_process_files_are_read(
    front: Seq<char>,
    name: Seq<char>,
    status: Seq<char>,
    parent: u32,
    behind: Seq<char>,
)
    requires
        !front.contains('('),
        !behind.contains(')'),
        text::is_word(status),
        !status.contains(')'),
    ensures
        ({
            let tail = seq![' '] + status + seq![' '] + text::decimal(parent as nat) + seq![' ']
                + behind;
            let stat = front + seq!['('] + name + seq![')'] + tail;
            let open = first_char_index(stat, '(');
            let close = last_index(stat, ')');
            &&& stat_in_order(stat) && stat.contains('(') && stat.contains(')')
            &&& stat.subrange(open + 1, close) == name
            &&& stat_parent(text::words(stat.skip(close + 1))) == parent
        }),
{
    let number = text::decimal(parent as nat);
    text::lemma_decimals_are_read_back(parent as nat, 0xffff_ffff);
    text::lemma_numbers_are_made_of_digits(number, '0');
    assert(text::parse_nat(number) == Some(parent as nat));
    assert(number[0] != '+') by {
        lemma_decimal_starts_with_digit(parent as nat);
    }
    assert(text::is_word(number));
    let tail = seq![' '] + status + seq![' '] + number + seq![' '] + behind;
    let stat = front + seq!['('] + name + seq![')'] + tail;
    let open = front.len() as int;
    let close = open + 1 + name.len();
    assert(stat[open] == '(');
    assert(stat[close] == ')');
    stat.index_of_first_ensures('(');
    stat.index_of_last_ensures(')');
    assert forall|i: int| 0 <= i < open implies stat[i] != '(' by {
        assert(stat[i] == front[i]);
    }
    assert forall|i: int| 0 <= i < tail.len() implies tail[i] != ')' by {
        let spaced = 1 + status.len();
        let written = spaced + 1 + number.len();
        if 1 <= i < spaced {
            assert(tail[i] == status[i - 1]);
        } else if spaced < i < written {
            assert(tail[i] == number[i - spaced - 1]);
        } else if i > written {
            assert(tail[i] == behind[i - written - 1]);
        }
    }
    assert forall|i: int| close < i < stat.len() implies stat[i] != ')' by {
        assert(stat[i] == tail[i - close - 1]);
    }
    assert(stat.subrange(open + 1, close) =~= name);
    assert(stat.skip(close + 1) =~= tail);
    text::lemma_words_are_told_apart(number, ' ', behind);
    let last = number + seq![' '] + behind;
    text::lemma_words_are_told_apart(status, ' ', last);
    let most = status + seq![' '] + last;
    text::lemma_words_are_told_apart(status, ' ', most);
    assert(tail =~= seq![' '] + most);
    assert(text::words(tail) =~= seq![status, number] + text::words(behind));
    assert(text::words(tail)[1] == number);
}

proof fn lemma_decimal_starts_with_digit(value: nat)
    ensures
        text::decimal(value).len() > 0,
        text::decimal(value)[0] != '+',
    decreases value,
{
    if value >= 10 {
        lemma_decimal_starts_with_digit(value / 10);
    }
}

/// A walk among processes goes to a process that it has not seen, unless there is none, and
/// else ends without an app. It never forgets where it was.
pub proof fn lemma_walks_go_on_or_end(walk: ProcessWalkView, pid: u32)
    ensures
        pid != 0 && !walk.visited.contains(pid) ==> walk.visit(pid).step == ProcessStep::ReadStat(
            pid,
        ) && walk.visit(pid).visited == walk.visited.insert(pid),
        pid == 0 ==> walk.visit(pid).step == ProcessStep::Found(0) && walk.visit(pid).visited
            == walk.visited,
        walk.visit(pid).parent == walk.parent,
{
}

/// The process of a window is that of the first client that names any, whoever else answers
/// behind; clients that name none are passed over, and zero is no process.
pub proof fn lemma_first_client_names_the_process(ids: Seq<Seq<u32>>, first: Seq<u32>)
    ensures
        first.len() == 0 ==> client_pid(seq![first] + ids) == client_pid(ids),
        first.len() > 0 && first[0] != 0 ==> client_pid(seq![first] + ids) == Some(first[0]),
        first.len() > 0 && first[0] == 0 ==> client_pid(seq![first] + ids) is None,
        client_pid(Seq::<Seq<u32>>::empty()) is None,
{
    let all = seq![first] + ids;
    assert(all[0] == first);
    assert(all.drop_first() =~= ids);
}

/// A process file is out of order only if it has both brackets and every closing one stands in
/// front of every opening one.
pub proof fn lemma_process_files_are_in_order(stat: Seq<char>, open: int, close: int)
    ensures
        !stat.contains('(') || !stat.contains(')') ==> stat_in_order(stat),
        0 <= open < close < stat.len() && stat[open] == '(' && stat[close] == ')' ==> stat_in_order(
            stat,
        ),
        0 <= close < open < stat.len() && stat[open] == '(' && stat[close] == ')' && (forall|i: int|
            0 <= i < open ==> stat[i] != '(') && (forall|i: int|
            close < i < stat.len() ==> stat[i] != ')') ==> !stat_in_order(stat),
{
    stat.index_of_first_ensures('(');
    stat.index_of_last_ensures(')');
}

/// A process file without a number where the parent stands names none.
pub proof fn lemma_unreadable_parents_are_none(fields: Seq<Seq<char>>)
    ensures
        fields.len() < 2 ==> stat_parent(fields) == 0,
        fields.len() >= 2 && text::parse_nat(fields[1]) is None ==> stat_parent(fields) == 0,
        fields.len() >= 2 && (text::parse_nat(fields[1]) matches Some(number) && number
            > 0xffff_ffff) ==> stat_parent(fields) == 0,
        fields.len() >= 2 && (text::parse_nat(fields[1]) matches Some(number) && number
            <= 0xffff_ffff) ==> stat_parent(fields) == text::parse_nat(fields[1])->0,
{
}

} // verus!
