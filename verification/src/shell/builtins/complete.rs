//! `complete`: register, show and remove completion specifications.
use vstd::prelude::*;
use crate::parser::ast::{Redirect, RedirectModel};
use crate::shell::builtins::{effect_models, Effect, EffectModel};
use crate::strmap::StringMap;
use crate::text::{owned, push_str, str_eq, views};

verus! {

/// The registry after `complete ARGS`, and what it prints.
/// `-C SCRIPT CMD` registers SCRIPT for CMD; `-p CMD` shows the specification of CMD;
/// `-r CMD` removes it; anything else does nothing.
pub open spec fn spec_complete(
    registry: Map<Seq<char>, Seq<char>>,
    args: Seq<Seq<char>>,
    stdout: RedirectModel,
) -> (Map<Seq<char>, Seq<char>>, Seq<EffectModel>) {
    if args.len() >= 3 && args[0] == "-C"@ {
        (registry.insert(args[2], args[1]), Seq::empty())
    } else if args.len() >= 2 && args[0] == "-p"@ {
        let cmd = args[1];
        let text = if registry.contains_key(cmd) {
            "complete -C '"@ + registry[cmd] + "' "@ + cmd + "\n"@
        } else {
            "complete: "@ + cmd + ": no completion specification\n"@
        };
        (registry, seq![EffectModel::Print(text, stdout)])
    } else if args.len() >= 2 && args[0] == "-r"@ {
        (registry.remove(args[1]), Seq::empty())
    } else {
        (registry, Seq::empty())
    }
}

/// Runs `complete` on the completion registry.
pub fn execute(registry: &mut StringMap, args: &[String], stdout: &Redirect) -> (r: Vec<Effect>)
    ensures
        (final(registry)@, effect_models(r@)) == spec_complete(old(registry)@, views(args@), stdout@),
{
    let ghost a = views(args@);
    let mut r: Vec<Effect> = Vec::new();
    assert(effect_models(r@) =~= Seq::<EffectModel>::empty());
    if args.len() >= 3 && str_eq(args[0].as_str(), "-C") {
        assert(a[0] == args@[0]@ && a[1] == args@[1]@ && a[2] == args@[2]@);
        registry.insert(args[2].clone(), args[1].clone());
    } else if args.len() >= 2 && str_eq(args[0].as_str(), "-p") {
        assert(a[0] == args@[0]@ && a[1] == args@[1]@);
        let cmd = args[1].as_str();
        let text = match registry.get(cmd) {
            Some(script) => {
                let mut t = owned("complete -C '");
                push_str(&mut t, script.as_str());
                push_str(&mut t, "' ");
                push_str(&mut t, cmd);
                push_str(&mut t, "\n");
                t
            },
            None => {
                let mut t = owned("complete: ");
                push_str(&mut t, cmd);
                push_str(&mut t, ": no completion specification\n");
                t
            },
        };
        r.push(Effect::Print(text, stdout.duplicate()));
        assert(effect_models(r@) =~= spec_complete(old(registry)@, a, stdout@).1);
    } else if args.len() >= 2 && str_eq(args[0].as_str(), "-r") {
        assert(a[0] == args@[0]@ && a[1] == args@[1]@);
        registry.remove(args[1].as_str());
    } else {
        assert(a.len() >= 3 ==> a[0] == args@[0]@);
        assert(a.len() >= 2 ==> a[0] == args@[0]@);
    }
    r
}

/// After `complete -C SCRIPT CMD`, `complete -p CMD` shows that specification; after
/// `complete -r CMD` it reports that there is none.
pub proof fn lemma_register_then_show(
    registry: Map<Seq<char>, Seq<char>>,
    script: Seq<char>,
    cmd: Seq<char>,
    stdout: RedirectModel,
)
    ensures
        spec_complete(
            spec_complete(registry, seq!["-C"@, script, cmd], stdout).0,
            seq!["-p"@, cmd],
            stdout,
        ).1 == seq![EffectModel::Print("complete -C '"@ + script + "' "@ + cmd + "\n"@, stdout)],
        spec_complete(
            spec_complete(registry, seq!["-r"@, cmd], stdout).0,
            seq!["-p"@, cmd],
            stdout,
        ).1 == seq![
            EffectModel::Print("complete: "@ + cmd + ": no completion specification\n"@, stdout),
        ],
{
    reveal_strlit("-C");
    reveal_strlit("-p");
    reveal_strlit("-r");
    assert("-p"@[1] != "-C"@[1]);
    assert("-r"@[1] != "-C"@[1]);
    assert(seq!["-C"@, script, cmd][0] == "-C"@);
    assert(seq!["-p"@, cmd][0] == "-p"@);
    assert(seq!["-r"@, cmd][0] == "-r"@);
    assert(seq!["-p"@, cmd][1] == cmd);
    assert(seq!["-r"@, cmd][1] == cmd);
    assert(seq!["-C"@, script, cmd][1] == script && seq!["-C"@, script, cmd][2] == cmd);
}

} // verus!
