//! `cd`: change the working directory.
use vstd::prelude::*;
use crate::shell::builtins::{effect_models, Effect, EffectModel};
use crate::text::{owned, push_str, str_eq};

verus! {

/// The directory `cd` is asked for: its first argument, or `~` when it has none.
pub open spec fn cd_target(args: Seq<Seq<char>>) -> Seq<char> {
    if args.len() > 0 {
        args[0]
    } else {
        "~"@
    }
}

/// Changes to the first argument (`~`, the default, meaning `home`); when the change
/// fails, `cd: TARGET: No such file or directory` is printed.
pub fn execute(args: &[String], home: &str) -> (r: Vec<Effect>)
    ensures
        ({
            let target = cd_target(crate::text::views(args@));
            effect_models(r@) == seq![
                EffectModel::ChangeDirectory(
                    if target == "~"@ { home@ } else { target },
                    "cd: "@ + target + ": No such file or directory\n"@,
                ),
            ]
        }),
{
    let target = if args.len() > 0 { owned(args[0].as_str()) } else { owned("~") };
    assert(target@ == cd_target(crate::text::views(args@)));
    let path = if str_eq(target.as_str(), "~") { owned(home) } else { target.clone() };
    let mut failure = owned("cd: ");
    push_str(&mut failure, target.as_str());
    push_str(&mut failure, ": No such file or directory\n");
    let r = vec![Effect::ChangeDirectory(path, failure)];
    assert(effect_models(r@) =~= seq![
        EffectModel::ChangeDirectory(
            if target@ == "~"@ { home@ } else { target@ },
            "cd: "@ + target@ + ": No such file or directory\n"@,
        ),
    ]);
    r
}

} // verus!
