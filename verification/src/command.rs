//! The code that is derived for an enum of commands: running the command that a value holds, and a
//! conversion from the arguments of each command.

use vstd::prelude::*;

verus! {

/// A variant of an enum: its name, and the type of its one unnamed field if that is what it holds.
pub struct CommandVariant {
    pub ident: String,
    pub args_type: Option<String>,
}

/// An item that commands are derived for: its name, and its variants if it is an enum.
pub struct CommandInput {
    pub name: String,
    pub variants: Option<Vec<CommandVariant>>,
}

/// The arm that runs the command of a variant.
pub open spec fn arm_of(name: Seq<char>, ident: Seq<char>) -> Seq<char> {
    name + "::"@ + ident
        + "(args) => { crate::args::invoke_args(args, globals, callback).await }\n"@
}

/// The conversion from the arguments of a variant.
pub open spec fn conversion_of(
    name: Seq<char>,
    ident: Seq<char>,
    args_type: Seq<char>,
) -> Seq<char> {
    "impl From<"@ + args_type + "> for "@ + name + " { fn from(args: "@ + args_type
        + ") -> Self { "@ + name + "::"@ + ident + "(args) } }\n"@
}

/// The arms of variants, in order.
pub open spec fn arms_of(name: Seq<char>, variants: Seq<CommandVariant>) -> Seq<char>
    decreases variants.len(),
{
    if variants.len() == 0 {
        Seq::empty()
    } else {
        arms_of(name, variants.drop_last()) + arm_of(name, variants.last().ident@)
    }
}

/// The conversions from the arguments of variants, in order.
pub open spec fn conversions_of(name: Seq<char>, variants: Seq<CommandVariant>) -> Seq<char>
    decreases variants.len(),
{
    if variants.len() == 0 {
        Seq::empty()
    } else {
        conversions_of(name, variants.drop_last()) + match variants.last().args_type {
            Some(args_type) => conversion_of(name, variants.last().ident@, args_type@),
            None => Seq::empty(),
        }
    }
}

/// The code that is derived for an enum with given variants.
pub open spec fn expansion(name: Seq<char>, variants: Seq<CommandVariant>) -> Seq<char> {
    "impl "@ + name
        + " { pub async fn invoke_local(self, globals: crate::interface::LoreGlobalArgs, callback: crate::interface::LoreEventCallback) -> i32 { match self {\n"@
        + arms_of(name, variants) + "} } }\n"@ + conversions_of(name, variants)
}

/// The first variant that does not hold exactly one arguments type.
pub open spec fn is_first_bad(variants: Seq<CommandVariant>, index: int) -> bool {
    &&& 0 <= index < variants.len()
    &&& variants[index].args_type is None
    &&& forall|i: int| 0 <= i < index ==> (#[trigger] variants[i]).args_type is Some
}

/// The code that is derived for an enum of commands, or why there is none: each variant must hold
/// exactly one arguments type.
pub fn get_lore_command_impl(input: &CommandInput) -> (code: Result<String, String>)
    ensures
        match (code, input.variants) {
            (Ok(code), Some(variants)) => {
                &&& forall|i: int|
                    0 <= i < variants@.len() ==> (#[trigger] variants@[i]).args_type is Some
                &&& code@ == expansion(input.name@, variants@)
            },
            (Ok(_), None) => false,
            (Err(reason), Some(variants)) => exists|index: int| #[trigger]
                is_first_bad(variants@, index) && reason@ == "LoreCommand variant "@
                    + variants@[index].ident@ + " must hold exactly one arguments type"@,
            (Err(reason), None) => reason@
                == "LoreCommand should only be used on the LoreCommand enum"@,
        },
{
    let variants: &Vec<CommandVariant> = match &input.variants {
        Some(variants) => variants,
        None => {
            return Err("LoreCommand should only be used on the LoreCommand enum".to_owned());
        },
    };
    let name: &str = input.name.as_str();
    let mut arms = String::new();
    let mut conversions = String::new();
    let mut i: usize = 0;
    proof {
        assert(variants@.take(0) =~= Seq::empty());
    }
    while i < variants.len()
        invariant
            i <= variants@.len(),
            input.variants == Some(*variants),
            name@ == input.name@,
            forall|j: int| 0 <= j < i ==> (#[trigger] variants@[j]).args_type is Some,
            arms@ == arms_of(name@, variants@.take(i as int)),
            conversions@ == conversions_of(name@, variants@.take(i as int)),
        decreases variants@.len() - i,
    {
        let variant: &CommandVariant = &variants[i];
        let ident: &str = variant.ident.as_str();
        let args_type: &str = match &variant.args_type {
            Some(args_type) => args_type.as_str(),
            None => {
                proof {
                    assert(is_first_bad(variants@, i as int));
                }
                return Err(
                    "LoreCommand variant ".to_owned().concat(ident).concat(
                        " must hold exactly one arguments type",
                    ),
                );
            },
        };
        let arm = name.to_owned().concat("::").concat(ident).concat(
            "(args) => { crate::args::invoke_args(args, globals, callback).await }\n",
        );
        arms.append(arm.as_str());
        let conversion = "impl From<".to_owned().concat(args_type).concat("> for ").concat(
            name,
        ).concat(" { fn from(args: ").concat(args_type).concat(") -> Self { ").concat(name).concat(
            "::",
        ).concat(ident).concat("(args) } }\n");
        conversions.append(conversion.as_str());
        proof {
            assert(variants@.take(i + 1).drop_last() =~= variants@.take(i as int));
            assert(arm@ == arm_of(name@, ident@));
            assert(conversion@ == conversion_of(name@, ident@, args_type@));
        }
        i = i + 1;
    }
    proof {
        assert(variants@.take(variants@.len() as int) =~= variants@);
    }
    Ok(
        "impl ".to_owned().concat(name).concat(
            " { pub async fn invoke_local(self, globals: crate::interface::LoreGlobalArgs, callback: crate::interface::LoreEventCallback) -> i32 { match self {\n",
        ).concat(arms.as_str()).concat("} } }\n").concat(conversions.as_str()),
    )
}

} // verus!
