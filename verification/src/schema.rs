//! The command schema that `gws schema` prints: every command with its
//! description, arguments and subcommands, as JSON.
use vstd::prelude::*;
use crate::json::{Json, JsonV, fields_view, get, json_str, lemma_lookup_unshadowed, object, push_member};

verus! {

/// What the schema tells of an argument.
pub struct ArgInfo {
    /// The argument's identifier.
    pub id: String,
    /// Whether the argument is required.
    pub required: bool,
    /// Its help text, if any.
    pub help: Option<String>,
    /// Its first default value, if any.
    pub default: Option<String>,
    /// How the parser handles it (the parser's description of its action).
    pub action: String,
}

/// What the schema tells of a command.
pub struct CommandInfo {
    pub name: String,
    pub about: Option<String>,
    pub args: Vec<ArgInfo>,
    pub subcommands: Vec<CommandInfo>,
}

/// The schema of an argument: whether it is required, its help and
/// default when it has them, and its action.
pub open spec fn arg_schema(a: ArgInfo) -> JsonV {
    JsonV::Object(
        seq![("required"@, JsonV::Bool(a.required))] + (match a.help {
            Some(h) => seq![("help"@, JsonV::Str(h@))],
            None => Seq::empty(),
        }) + (match a.default {
            Some(d) => seq![("default"@, JsonV::Str(d@))],
            None => Seq::empty(),
        }) + seq![("action"@, JsonV::Str(a.action@))],
    )
}

/// The schemas of the arguments, keyed by their identifiers.
pub open spec fn args_schema(args: Seq<ArgInfo>) -> Seq<(Seq<char>, JsonV)> {
    Seq::new(args.len(), |i: int| (args[i].id@, arg_schema(args[i])))
}

/// The schema of a command: its description when it has one, its arguments,
/// and its subcommands (keyed by name) when it has some.
pub open spec fn command_view(c: CommandInfo) -> JsonV
    decreases c,
{
    let about = match c.about {
        Some(a) => seq![("about"@, JsonV::Str(a@))],
        None => Seq::<(Seq<char>, JsonV)>::empty(),
    };
    let args = seq![("args"@, JsonV::Object(args_schema(c.args@)))];
    let subs = Seq::new(
        c.subcommands@.len(),
        |i: int|
            if 0 <= i < c.subcommands@.len() {
                (c.subcommands@[i].name@, command_view(c.subcommands@[i]))
            } else {
                (Seq::<char>::empty(), JsonV::Null)
            },
    );
    JsonV::Object(
        about + args + if subs.len() > 0 {
            seq![("subcommands"@, JsonV::Object(subs))]
        } else {
            Seq::empty()
        },
    )
}

/// The schemas of a command's subcommands, keyed by name.
pub open spec fn subcommands_view(c: CommandInfo) -> Seq<(Seq<char>, JsonV)> {
    Seq::new(c.subcommands@.len(), |i: int| (c.subcommands@[i].name@, command_view(c.subcommands@[i])))
}

/// A command's schema, written with `subcommands_view`.
proof fn lemma_command_view(c: CommandInfo)
    ensures
        command_view(c) == JsonV::Object(
            (match c.about {
                Some(a) => seq![("about"@, JsonV::Str(a@))],
                None => Seq::<(Seq<char>, JsonV)>::empty(),
            }) + seq![("args"@, JsonV::Object(args_schema(c.args@)))] + if subcommands_view(c).len() > 0 {
                seq![("subcommands"@, JsonV::Object(subcommands_view(c)))]
            } else {
                Seq::<(Seq<char>, JsonV)>::empty()
            },
        ),
{
    let about = match c.about {
        Some(a) => seq![("about"@, JsonV::Str(a@))],
        None => Seq::<(Seq<char>, JsonV)>::empty(),
    };
    let head = about + seq![("args"@, JsonV::Object(args_schema(c.args@)))];
    let sv = subcommands_view(c);
    if let JsonV::Object(m) = command_view(c) {
        if sv.len() > 0 {
            let k = head.len() as int;
            assert(m.len() == k + 1);
            if let JsonV::Object(x) = m[k].1 {
                assert(x =~= sv);
            }
            assert(m =~= head + seq![("subcommands"@, JsonV::Object(sv))]);
        } else {
            assert(m =~= head + Seq::<(Seq<char>, JsonV)>::empty());
        }
    }
}

fn arg_schema_of(a: &ArgInfo) -> (j: Json)
    ensures
        j@ == arg_schema(*a),
{
    let mut f: Vec<(String, Json)> = Vec::new();
    push_member(&mut f, "required", Json::Bool(a.required));
    if let Some(h) = &a.help {
        push_member(&mut f, "help", json_str(h.as_str()));
    }
    if let Some(d) = &a.default {
        push_member(&mut f, "default", json_str(d.as_str()));
    }
    push_member(&mut f, "action", json_str(a.action.as_str()));
    proof {
        if let JsonV::Object(m) = arg_schema(*a) {
            assert(fields_view(f@) =~= m);
        }
    }
    object(f)
}

/// The schemas of the subcommands, keyed by name.
fn subcommands_of(c: &CommandInfo) -> (f: Vec<(String, Json)>)
    ensures
        fields_view(f@) == subcommands_view(*c),
    decreases *c, 1nat,
{
    let mut f: Vec<(String, Json)> = Vec::new();
    let mut i: usize = 0;
    while i < c.subcommands.len()
        invariant
            0 <= i <= c.subcommands@.len(),
            fields_view(f@) == subcommands_view(*c).take(i as int),
        decreases c.subcommands@.len() - i,
    {
        let sub = &c.subcommands[i];
        proof {
            assert(decreases_to!(*c => c.subcommands));
            assert(decreases_to!(c.subcommands => c.subcommands@[i as int]));
        }
        let s = command_schema(sub);
        let ghost before = fields_view(f@);
        push_member(&mut f, sub.name.as_str(), s);
        proof {
            assert(subcommands_view(*c).take(i + 1) =~= before.push((sub.name@, s@)));
        }
        i += 1;
    }
    proof {
        assert(subcommands_view(*c).take(c.subcommands@.len() as int) =~= subcommands_view(*c));
    }
    f
}

/// The schema of a command and, recursively, of its subcommands.
pub fn command_schema(cmd: &CommandInfo) -> (j: Json)
    ensures
        j@ == command_view(*cmd),
    decreases *cmd, 2nat,
{
    let mut f: Vec<(String, Json)> = Vec::new();
    if let Some(a) = &cmd.about {
        push_member(&mut f, "about", json_str(a.as_str()));
    }
    let ghost about_part = fields_view(f@);
    proof {
        assert(about_part =~= match cmd.about {
            Some(a) => seq![("about"@, JsonV::Str(a@))],
            None => Seq::<(Seq<char>, JsonV)>::empty(),
        });
    }
    let mut args: Vec<(String, Json)> = Vec::new();
    let mut i: usize = 0;
    while i < cmd.args.len()
        invariant
            0 <= i <= cmd.args@.len(),
            fields_view(args@) == args_schema(cmd.args@).take(i as int),
        decreases cmd.args@.len() - i,
    {
        let a = &cmd.args[i];
        let ghost before = fields_view(args@);
        push_member(&mut args, a.id.as_str(), arg_schema_of(a));
        proof {
            assert(args_schema(cmd.args@).take(i + 1) =~= before.push((a.id@, arg_schema(*a))));
        }
        i += 1;
    }
    proof {
        assert(args_schema(cmd.args@).take(cmd.args@.len() as int) =~= args_schema(cmd.args@));
    }
    push_member(&mut f, "args", object(args));
    let ghost with_args = fields_view(f@);
    proof {
        assert(with_args =~= about_part + seq![("args"@, JsonV::Object(args_schema(cmd.args@)))]);
    }
    let subs = subcommands_of(cmd);
    if subs.len() > 0 {
        push_member(&mut f, "subcommands", object(subs));
        proof {
            assert(fields_view(f@) =~= with_args + seq![("subcommands"@, JsonV::Object(subcommands_view(*cmd)))]);
        }
    } else {
        proof {
            assert(fields_view(f@) =~= with_args + Seq::<(Seq<char>, JsonV)>::empty());
        }
    }
    proof {
        lemma_command_view(*cmd);
    }
    object(f)
}

/// The schema of the whole program: the schema of each top-level command, keyed by name.
pub fn build_schema(cmd: &CommandInfo) -> (j: Json)
    ensures
        j@ == JsonV::Object(subcommands_view(*cmd)),
{
    let f = subcommands_of(cmd);
    object(f)
}

/// The schema lists every command under its name: looking the name of a
/// command up in the schema of the commands that hold it gives that
/// command's schema (no later command having the same name).
pub proof fn lemma_schema_lists_commands(c: CommandInfo, i: int)
    requires
        0 <= i < c.subcommands@.len(),
        forall|j: int| i < j < c.subcommands@.len() ==> (#[trigger] c.subcommands@[j]).name@ != c.subcommands@[i].name@,
    ensures
        get(JsonV::Object(subcommands_view(c)), c.subcommands@[i].name@) == Some(command_view(c.subcommands@[i])),
{
    let f = subcommands_view(c);
    assert forall|j: int| i < j < f.len() implies (#[trigger] f[j]).0 != f[i].0 by {
        assert(f[j].0 == c.subcommands@[j].name@);
    }
    lemma_lookup_unshadowed(f, i);
}

} // verus!
