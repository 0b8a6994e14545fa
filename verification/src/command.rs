//! The command registry: palette commands, each a name, a description and
//! the intent re-injected when chosen. Merged by name (last wins).

use vstd::prelude::*;
use crate::intent::{Intent, same_intent};
use crate::mode::{Candidate, CmdToken, Mode, ResolveFill, SelectSpec};
use crate::reducer::CommandLookup;
use crate::select::cand_models;
use crate::select::op_request;
use crate::text::{chars_of, owned, push_char, push_str, str_eq};
use crate::value::{Ev, ExtensionValue, ev};

verus! {

#[derive(Debug, Clone, PartialEq)]
pub struct CommandDef {
    pub name: String,
    pub description: String,
    pub intent: Intent,
}

pub struct CommandRegistry {
    commands: Vec<CommandDef>,
}

/// The index of the command named `name`, if any.
pub open spec fn find_command(cs: Seq<CommandDef>, name: Seq<char>) -> Option<int>
    decreases cs.len(),
{
    if cs.len() == 0 {
        None
    } else if cs[0].name@ == name {
        Some(0)
    } else {
        match find_command(cs.drop_first(), name) {
            Some(i) => Some(i + 1),
            None => None,
        }
    }
}

/// A name padded with spaces to at least 16 characters.
pub open spec fn pad16(s: Seq<char>) -> Seq<char> {
    if s.len() >= 16 { s } else { s + Seq::new((16 - s.len()) as nat, |i: int| ' ') }
}

/// The palette label of a command: padded name, a space, the description.
pub open spec fn command_label(c: CommandDef) -> Seq<char> {
    pad16(c.name@) + seq![' '] + c.description@
}

impl CommandRegistry {
    /// The registered commands, in registration order.
    pub closed spec fn commands(&self) -> Seq<CommandDef> {
        self.commands@
    }

    pub fn new() -> (r: CommandRegistry)
        ensures
            r.commands().len() == 0,
    {
        CommandRegistry { commands: Vec::new() }
    }

    /// Register or replace a command by name (last wins).
    pub fn register(&mut self, def: CommandDef)
        ensures
            final(self).commands() == (match find_command(old(self).commands(), def.name@) {
                Some(i) => old(self).commands().update(i, def),
                None => old(self).commands().push(def),
            }),
    {
        let ghost cs = self.commands@;
        let mut i: usize = 0;
        assert(cs.skip(0) =~= cs);
        while i < self.commands.len()
            invariant
                i <= self.commands@.len(),
                cs == self.commands@,
                cs == old(self).commands(),
                find_command(cs, def.name@) == (match find_command(cs.skip(i as int), def.name@) {
                    Some(j) => Some(j + i),
                    None => None,
                }),
            decreases self.commands@.len() - i,
        {
            assert(cs.skip(i as int).drop_first() =~= cs.skip(i + 1));
            assert(cs.skip(i as int)[0] == cs[i as int]);
            if str_eq(self.commands[i].name.as_str(), def.name.as_str()) {
                self.commands.set(i, def);
                return;
            }
            i = i + 1;
        }
        self.commands.push(def);
    }

    pub fn extend(&mut self, defs: Vec<CommandDef>)
        ensures
            final(self).commands() == register_all(old(self).commands(), defs@),
    {
        let ghost ds = defs@;
        let mut rest = defs;
        let mut k: usize = 0;
        let n = rest.len();
        assert(ds.take(0) =~= Seq::<CommandDef>::empty());
        while rest.len() > 0
            invariant
                k + rest@.len() == n,
                n == ds.len(),
                rest@ == ds.skip(k as int),
                self.commands() == register_all(old(self).commands(), ds.take(k as int)),
            decreases rest@.len(),
        {
            assert(rest@[0] == ds[k as int]);
            let d = rest.remove(0);
            assert(ds.take(k + 1).drop_last() =~= ds.take(k as int));
            self.register(d);
            k = k + 1;
            assert(rest@ =~= ds.skip(k as int));
        }
        assert(ds.take(k as int) =~= ds);
    }

    /// The intent registered for a command name.
    pub fn intent_ref(&self, name: &str) -> (r: Option<&Intent>)
        ensures
            match find_command(self.commands(), name@) {
                Some(i) => r == Some(&self.commands()[i].intent),
                None => r is None,
            },
    {
        let ghost cs = self.commands@;
        let mut i: usize = 0;
        assert(cs.skip(0) =~= cs);
        while i < self.commands.len()
            invariant
                i <= self.commands@.len(),
                cs == self.commands@,
                find_command(cs, name@) == (match find_command(cs.skip(i as int), name@) {
                    Some(j) => Some(j + i),
                    None => None,
                }),
            decreases self.commands@.len() - i,
        {
            assert(cs.skip(i as int).drop_first() =~= cs.skip(i + 1));
            assert(cs.skip(i as int)[0] == cs[i as int]);
            if str_eq(self.commands[i].name.as_str(), name) {
                return Some(&self.commands[i].intent);
            }
            i = i + 1;
        }
        None
    }

    /// A copy of the intent registered for a command name.
    pub fn intent_of(&self, name: &str) -> (r: Option<Intent>)
        ensures
            match find_command(self.commands(), name@) {
                Some(i) => r matches Some(x) && same_intent(x, self.commands()[i].intent),
                None => r is None,
            },
    {
        match self.intent_ref(name) {
            Some(i) => Some(i.clone()),
            None => None,
        }
    }

    /// Candidates for the command palette: the label shows the padded name and
    /// the description; the value carries the name.
    pub fn candidates(&self) -> (r: Vec<Candidate>)
        ensures
            r@.len() == self.commands().len(),
            forall|i: int| 0 <= i < r@.len() ==> (#[trigger] r@[i]).label@ == command_label(self.commands()[i])
                && ev(r@[i].value) == Ev::Str(self.commands()[i].name@),
    {
        let mut out: Vec<Candidate> = Vec::new();
        let mut i: usize = 0;
        while i < self.commands.len()
            invariant
                i <= self.commands@.len(),
                out@.len() == i,
                forall|k: int| 0 <= k < i ==> (#[trigger] out@[k]).label@ == command_label(self.commands@[k])
                    && ev(out@[k].value) == Ev::Str(self.commands@[k].name@),
            decreases self.commands@.len() - i,
        {
            let c = &self.commands[i];
            let mut label = owned(c.name.as_str());
            let n = chars_of(c.name.as_str()).len();
            let mut pad = n;
            let ghost base = label@;
            while pad < 16
                invariant
                    n <= pad <= 16 || (pad == n && n >= 16),
                    n == c.name@.len(),
                    base == c.name@,
                    label@ == base + Seq::new((pad - n) as nat, |j: int| ' '),
                decreases 16 - pad,
            {
                push_char(&mut label, ' ');
                pad = pad + 1;
                assert(label@ =~= base + Seq::new((pad - n) as nat, |j: int| ' '));
            }
            assert(label@ =~= pad16(c.name@)) by {
                if n >= 16 {
                    assert(label@ =~= base);
                }
            }
            push_char(&mut label, ' ');
            push_str(&mut label, c.description.as_str());
            out.push(Candidate { label, value: ExtensionValue::String(c.name.clone()) });
            i = i + 1;
        }
        out
    }
}

/// Registering each of `defs` in order.
pub open spec fn register_all(cs: Seq<CommandDef>, defs: Seq<CommandDef>) -> Seq<CommandDef>
    decreases defs.len(),
{
    if defs.len() == 0 {
        cs
    } else {
        let prev = register_all(cs, defs.drop_last());
        let d = defs.last();
        match find_command(prev, d.name@) {
            Some(i) => prev.update(i, d),
            None => prev.push(d),
        }
    }
}

/// A found command is in range and has the name looked for; a missing name
/// is on no command.
pub proof fn lemma_find_command(cs: Seq<CommandDef>, name: Seq<char>)
    ensures
        find_command(cs, name) matches Some(i) ==> 0 <= i < cs.len() && cs[i].name@ == name
            && forall|k: int| 0 <= k < i ==> (#[trigger] cs[k]).name@ != name,
        find_command(cs, name) is None ==> forall|k: int| 0 <= k < cs.len() ==> (#[trigger] cs[k]).name@ != name,
    decreases cs.len(),
{
    if cs.len() > 0 {
        let t = cs.drop_first();
        lemma_find_command(t, name);
        if cs[0].name@ != name {
            match find_command(t, name) {
                Some(i) => {
                    assert(cs[i + 1] == t[i]);
                    assert forall|k: int| 0 <= k < i + 1 implies (#[trigger] cs[k]).name@ != name by {
                        if k > 0 {
                            assert(cs[k] == t[k - 1]);
                        }
                    }
                }
                None => {
                    assert forall|k: int| 0 <= k < cs.len() implies (#[trigger] cs[k]).name@ != name by {
                        if k > 0 {
                            assert(cs[k] == t[k - 1]);
                        }
                    }
                }
            }
        }
    }
}

proof fn lemma_find_first(cs: Seq<CommandDef>, name: Seq<char>, i: int)
    requires
        0 <= i < cs.len(),
        cs[i].name@ == name,
        forall|k: int| 0 <= k < i ==> (#[trigger] cs[k]).name@ != name,
    ensures
        find_command(cs, name) == Some(i),
    decreases i,
{
    if i > 0 {
        assert forall|k: int| 0 <= k < i - 1 implies (#[trigger] cs.drop_first()[k]).name@ != name by {
            assert(cs.drop_first()[k] == cs[k + 1]);
        }
        lemma_find_first(cs.drop_first(), name, i - 1);
    }
}

proof fn lemma_find_absent(cs: Seq<CommandDef>, name: Seq<char>)
    requires
        forall|k: int| 0 <= k < cs.len() ==> (#[trigger] cs[k]).name@ != name,
    ensures
        find_command(cs, name) is None,
    decreases cs.len(),
{
    if cs.len() > 0 {
        assert forall|k: int| 0 <= k < cs.len() - 1 implies (#[trigger] cs.drop_first()[k]).name@ != name by {
            assert(cs.drop_first()[k] == cs[k + 1]);
        }
        lemma_find_absent(cs.drop_first(), name);
    }
}

/// After registering a command, its name looks up the new command (the last
/// registration wins), and every other name looks up what it did before.
pub proof fn law_register_then_lookup(cs: Seq<CommandDef>, def: CommandDef, name: Seq<char>)
    ensures
        ({
            let after = match find_command(cs, def.name@) {
                Some(i) => cs.update(i, def),
                None => cs.push(def),
            };
            &&& find_command(after, def.name@) matches Some(j) && after[j] == def
            &&& name != def.name@ ==> find_command(after, name) == find_command(cs, name)
        }),
{
    lemma_find_command(cs, def.name@);
    lemma_find_command(cs, name);
    let after = match find_command(cs, def.name@) {
        Some(i) => cs.update(i, def),
        None => cs.push(def),
    };
    match find_command(cs, def.name@) {
        Some(i) => {
            assert forall|k: int| 0 <= k < i implies (#[trigger] after[k]).name@ != def.name@ by {
                assert(after[k] == cs[k]);
            }
            lemma_find_first(after, def.name@, i);
            if name != def.name@ {
                match find_command(cs, name) {
                    Some(j) => {
                        assert forall|k: int| 0 <= k < j implies (#[trigger] after[k]).name@ != name by {
                            if k != i {
                                assert(after[k] == cs[k]);
                            }
                        }
                        assert(after[j] == cs[j]);
                        lemma_find_first(after, name, j);
                    }
                    None => {
                        assert forall|k: int| 0 <= k < after.len() implies (#[trigger] after[k]).name@ != name by {
                            if k != i {
                                assert(after[k] == cs[k]);
                            }
                        }
                        lemma_find_absent(after, name);
                    }
                }
            }
        }
        None => {
            assert forall|k: int| 0 <= k < cs.len() implies (#[trigger] after[k]).name@ != def.name@ by {
                assert(after[k] == cs[k]);
            }
            lemma_find_first(after, def.name@, cs.len() as int);
            if name != def.name@ {
                match find_command(cs, name) {
                    Some(j) => {
                        assert forall|k: int| 0 <= k < j implies (#[trigger] after[k]).name@ != name by {
                            assert(after[k] == cs[k]);
                        }
                        assert(after[j] == cs[j]);
                        lemma_find_first(after, name, j);
                    }
                    None => {
                        assert forall|k: int| 0 <= k < after.len() implies (#[trigger] after[k]).name@ != name by {
                            if k < cs.len() {
                                assert(after[k] == cs[k]);
                            }
                        }
                        lemma_find_absent(after, name);
                    }
                }
            }
        }
    }
}

impl CommandLookup for CommandRegistry {
    open spec fn obeys_commands(&self) -> bool {
        true
    }

    open spec fn command_intent(&self, name: Seq<char>) -> Option<Intent> {
        match find_command(self.commands(), name) {
            Some(i) => Some(self.commands()[i].intent),
            None => None,
        }
    }

    open spec fn command_models(&self) -> Seq<(Seq<char>, Ev)> {
        Seq::new(self.commands().len(), |i: int| (command_label(self.commands()[i]), Ev::Str(self.commands()[i].name@)))
    }

    fn intent_of(&self, name: &str) -> (r: Option<Intent>) {
        CommandRegistry::intent_of(self, name)
    }

    fn command_candidates(&self) -> (r: Vec<Candidate>) {
        let r = self.candidates();
        assert(cand_models(r@) =~= self.command_models());
        r
    }
}

/// The default palette commands: names and descriptions.
pub open spec fn default_command_texts() -> Seq<(Seq<char>, Seq<char>)> {
    seq![
        ("refresh"@, "reload the directory"@),
        ("toggle-dotfiles"@, "show/hide hidden files"@),
        ("select-all"@, "select all entries"@),
        ("clear-selection"@, "clear the selection"@),
        ("copy"@, "copy selection/cursor"@),
        ("move"@, "move selection/cursor"@),
        ("rename"@, "rename the cursor entry"@),
        ("delete"@, "delete selection/cursor"@),
        ("edit"@, "edit in $EDITOR"@),
        ("mkdir"@, "make a directory"@),
        ("touch"@, "create an empty file"@),
        ("quit"@, "quit wasdf"@),
    ]
}

/// The intent of the `i`-th default command.
pub open spec fn default_command_intent(i: int, intent: Intent) -> bool {
    if i == 0 { intent == Intent::Refresh }
    else if i == 1 { intent == Intent::ToggleDotFiles }
    else if i == 2 { intent == Intent::SelectAll }
    else if i == 3 { intent == Intent::ClearSelection }
    else if i == 4 { intent == Intent::StartCopy }
    else if i == 5 { intent == Intent::StartMove }
    else if i == 6 { intent == Intent::StartRename }
    else if i == 7 { intent == Intent::DeleteSelected }
    else if i == 8 { intent == Intent::StartEdit }
    else if i == 9 { intent matches Intent::PushMode(m) && crate::codec::is_path_input(*m, "mkdir"@) }
    else if i == 10 { intent matches Intent::PushMode(m) && crate::codec::is_path_input(*m, "touch"@) }
    else { intent == Intent::Quit }
}

fn cmd(name: &str, desc: &str, intent: Intent) -> (c: CommandDef)
    ensures
        c.name@ == name@,
        c.description@ == desc@,
        c.intent == intent,
{
    CommandDef { name: owned(name), description: owned(desc), intent }
}

fn path_input(op: &str) -> (i: Intent)
    ensures
        i matches Intent::PushMode(m) && crate::codec::is_path_input(*m, op@),
{
    Intent::PushMode(Box::new(Mode::Select(SelectSpec::command(op_request(op, Vec::new(), None), ResolveFill::Path, Vec::new(), None))))
}

/// The embedded default command set.
pub fn defaults() -> (r: Vec<CommandDef>)
    ensures
        r@.len() == default_command_texts().len(),
        forall|i: int| 0 <= i < r@.len() ==> (#[trigger] r@[i]).name@ == default_command_texts()[i].0
            && r@[i].description@ == default_command_texts()[i].1
            && default_command_intent(i, r@[i].intent),
{
    proof {
        reveal_strlit("mkdir");
        reveal_strlit("touch");
    }
    let r = vec![
        cmd("refresh", "reload the directory", Intent::Refresh),
        cmd("toggle-dotfiles", "show/hide hidden files", Intent::ToggleDotFiles),
        cmd("select-all", "select all entries", Intent::SelectAll),
        cmd("clear-selection", "clear the selection", Intent::ClearSelection),
        cmd("copy", "copy selection/cursor", Intent::StartCopy),
        cmd("move", "move selection/cursor", Intent::StartMove),
        cmd("rename", "rename the cursor entry", Intent::StartRename),
        cmd("delete", "delete selection/cursor", Intent::DeleteSelected),
        cmd("edit", "edit in $EDITOR", Intent::StartEdit),
        cmd("mkdir", "make a directory", path_input("mkdir")),
        cmd("touch", "create an empty file", path_input("touch")),
        cmd("quit", "quit wasdf", Intent::Quit),
    ];
    r
}


/// The host's side of the reducer's lookup: the resolver's option
/// checkboxes and command-line skeleton, and the few facts of the file system
/// and the environment that a transition consults.
pub trait HostLookup {
    fn resolver_options(&self, op: &str) -> Vec<(String, String)>;

    fn resolver_command(&self, op: &str) -> Vec<CmdToken>;

    fn is_dir(&self, path: &str) -> bool;

    fn dir_children(&self, dir: &str) -> Vec<String>;

    fn editor(&self) -> String;
}

/// The reducer's lookup in the running program: the commands come from the
/// registry, everything else from the host.
pub struct RegistryLookup<'a, H: HostLookup> {
    pub commands: &'a CommandRegistry,
    pub host: H,
}

impl<'a, H: HostLookup> CommandLookup for RegistryLookup<'a, H> {
    open spec fn obeys_commands(&self) -> bool {
        true
    }

    open spec fn command_intent(&self, name: Seq<char>) -> Option<Intent> {
        (*self.commands).command_intent(name)
    }

    open spec fn command_models(&self) -> Seq<(Seq<char>, Ev)> {
        (*self.commands).command_models()
    }

    fn intent_of(&self, name: &str) -> (r: Option<Intent>) {
        CommandRegistry::intent_of(self.commands, name)
    }

    fn command_candidates(&self) -> (r: Vec<Candidate>) {
        let r = self.commands.candidates();
        assert(cand_models(r@) =~= (*self.commands).command_models());
        r
    }

    fn resolver_options(&self, op: &str) -> Vec<(String, String)> {
        self.host.resolver_options(op)
    }

    fn resolver_command(&self, op: &str) -> Vec<CmdToken> {
        self.host.resolver_command(op)
    }

    fn is_dir(&self, path: &str) -> bool {
        self.host.is_dir(path)
    }

    fn dir_children(&self, dir: &str) -> Vec<String> {
        self.host.dir_children(dir)
    }

    fn editor(&self) -> String {
        self.host.editor()
    }
}

} // verus!
