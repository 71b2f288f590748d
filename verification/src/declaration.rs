//! What becomes of a declaration when only its outward face is kept: which
//! declarations are emitted, what is kept of a variable's initializer, and
//! which signatures are faulted.
//!
//! The facts that these decisions rest on, such as whether a name is used
//! elsewhere or whether a type can be read off an expression, come from the
//! caller.

use vstd::prelude::*;

verus! {

/// What a declaration declares, with what the decision reads of it.
#[derive(Clone, Copy, Debug, PartialEq, Eq, Structural)]
pub enum DeclarationFacts {
    /// A function; `named` says that it has a name, `value_referenced` that
    /// the name is used as a value.
    Function { named: bool, value_referenced: bool },
    /// Variables; `declare` says that the declaration is ambient.
    Variable { declare: bool },
    /// A class; `named` says that it has a name, `referenced` that the name
    /// is used.
    Class { named: bool, referenced: bool },
    TypeAlias { referenced: bool },
    Interface { referenced: bool },
    Enum { referenced: bool },
    /// A module or namespace; `identifier` says that it is named by an
    /// identifier, not by a string.
    Module { identifier: bool, value_referenced: bool },
    ImportEquals { referenced: bool },
}

/// A declaration is emitted if bindings are not checked, or if its name is
/// used. An ambient variable declaration is never emitted; any other
/// variable declaration always is, with the declarators that are kept.
pub open spec fn spec_transform_declaration(facts: DeclarationFacts, check_binding: bool) -> bool {
    match facts {
        DeclarationFacts::Function { named, value_referenced } => !check_binding || (named
            && value_referenced),
        DeclarationFacts::Variable { declare } => !declare,
        DeclarationFacts::Class { named, referenced } => !check_binding || (named && referenced),
        DeclarationFacts::TypeAlias { referenced } => !check_binding || referenced,
        DeclarationFacts::Interface { referenced } => !check_binding || referenced,
        DeclarationFacts::Enum { referenced } => !check_binding || referenced,
        DeclarationFacts::Module { identifier, value_referenced } => !check_binding || (identifier
            && value_referenced),
        DeclarationFacts::ImportEquals { referenced } => !check_binding || referenced,
    }
}

/// Whether a declaration is emitted.
pub fn transform_declaration(facts: DeclarationFacts, check_binding: bool) -> (emitted: bool)
    ensures
        emitted == spec_transform_declaration(facts, check_binding),
{
    match facts {
        DeclarationFacts::Function { named, value_referenced } => {
            !check_binding || (named && value_referenced)
        },
        DeclarationFacts::Variable { declare } => !declare,
        DeclarationFacts::Class { named, referenced } => !check_binding || (named && referenced),
        DeclarationFacts::TypeAlias { referenced } => !check_binding || referenced,
        DeclarationFacts::Interface { referenced } => !check_binding || referenced,
        DeclarationFacts::Enum { referenced } => !check_binding || referenced,
        DeclarationFacts::Module { identifier, value_referenced } => {
            !check_binding || (identifier && value_referenced)
        },
        DeclarationFacts::ImportEquals { referenced } => !check_binding || referenced,
    }
}

/// Without bindings being checked, every declaration but an ambient
/// variable declaration is emitted.
pub proof fn lemma_unchecked_declarations_are_emitted(facts: DeclarationFacts)
    requires
        !(facts matches DeclarationFacts::Variable { declare } && declare),
    ensures
        spec_transform_declaration(facts, false),
{
}

/// What the decision reads of the initializer of a variable.
#[derive(Clone, Copy, Debug, PartialEq, Eq, Structural)]
pub struct InitializerFacts {
    /// Its type must be inferred: it is not a literal that can stand as it
    /// is.
    pub needs_inference: bool,
    /// It is a template literal.
    pub is_template_literal: bool,
    /// It is a template literal without interpolations, which a string
    /// literal can replace.
    pub template_is_plain: bool,
    /// A type can be read off it.
    pub type_is_inferable: bool,
    /// It is a function or arrow function.
    pub is_function: bool,
}

/// What the decision reads of a declarator.
#[derive(Clone, Copy, Debug, PartialEq, Eq, Structural)]
pub struct DeclaratorFacts {
    /// It binds a pattern, not a single name.
    pub is_destructuring: bool,
    /// It binds a single name, and that name is used as a value. `None`
    /// where it binds no single name.
    pub name_value_referenced: Option<bool>,
    pub has_type_annotation: bool,
    pub is_const: bool,
    pub initializer: Option<InitializerFacts>,
}

/// What is kept of an initializer.
#[derive(Clone, Copy, Debug, PartialEq, Eq, Structural)]
pub enum KeptInitializer {
    /// Nothing.
    Dropped,
    /// The initializer as it is.
    AsIs,
    /// The string literal that stands for a plain template literal.
    TemplateAsString,
}

/// The type that the emitted declarator carries.
#[derive(Clone, Copy, Debug, PartialEq, Eq, Structural)]
pub enum EmittedType {
    /// What the declarator had: its annotation, or none.
    Unchanged,
    /// The type read off the initializer.
    Inferred,
    /// `unknown`, for want of anything better.
    Unknown,
}

/// What becomes of a declarator.
#[derive(Clone, Copy, Debug, PartialEq, Eq, Structural)]
pub enum DeclaratorPlan {
    /// It is not emitted. A pattern is never emitted; its names are faulted
    /// one by one by the caller.
    Omitted,
    /// It is emitted with this initializer and type. `needs_explicit_type`
    /// says that the missing type annotation is faulted.
    Emitted { initializer: KeptInitializer, binding_type: EmittedType, needs_explicit_type: bool },
}

/// What is kept of the initializer of a declarator without type
/// annotation: a constant keeps a literal that needs no inference, a plain
/// template literal as a string.
pub open spec fn spec_kept_initializer(facts: DeclaratorFacts) -> KeptInitializer {
    match facts.initializer {
        Some(init) if !facts.has_type_annotation && facts.is_const && !init.needs_inference => if init.is_template_literal {
            if init.template_is_plain {
                KeptInitializer::TemplateAsString
            } else {
                KeptInitializer::Dropped
            }
        } else {
            KeptInitializer::AsIs
        },
        _ => KeptInitializer::Dropped,
    }
}

/// A type is read off the initializer of a declarator without type
/// annotation where the initializer is not kept as a literal, a template
/// literal of a constant excepted.
pub open spec fn spec_type_is_inferred(facts: DeclaratorFacts) -> bool {
    match facts.initializer {
        Some(init) => !facts.has_type_annotation && !(facts.is_const && !init.needs_inference) && (
        !facts.is_const || !init.is_template_literal) && init.type_is_inferable,
        None => false,
    }
}

/// What becomes of a declarator.
pub open spec fn spec_transform_variable_declarator(
    facts: DeclaratorFacts,
    check_binding: bool,
) -> DeclaratorPlan {
    if facts.is_destructuring {
        DeclaratorPlan::Omitted
    } else if check_binding && facts.name_value_referenced == Some(false) {
        DeclaratorPlan::Omitted
    } else {
        let initializer = spec_kept_initializer(facts);
        let inferred = spec_type_is_inferred(facts);
        let unknown = !facts.has_type_annotation && initializer is Dropped && !inferred;
        DeclaratorPlan::Emitted {
            initializer,
            binding_type: if inferred {
                EmittedType::Inferred
            } else if unknown {
                EmittedType::Unknown
            } else {
                EmittedType::Unchanged
            },
            needs_explicit_type: unknown && !(facts.initializer matches Some(init)
                && init.is_function),
        }
    }
}

/// Decides what becomes of a declarator.
pub fn transform_variable_declarator(facts: DeclaratorFacts, check_binding: bool) -> (plan:
    DeclaratorPlan)
    ensures
        plan == spec_transform_variable_declarator(facts, check_binding),
{
    if facts.is_destructuring {
        return DeclaratorPlan::Omitted;
    }
    if check_binding {
        if let Some(referenced) = facts.name_value_referenced {
            if !referenced {
                return DeclaratorPlan::Omitted;
            }
        }
    }
    let mut binding_type = EmittedType::Unchanged;
    let mut initializer = KeptInitializer::Dropped;
    let mut needs_explicit_type = false;
    if !facts.has_type_annotation {
        if let Some(init) = facts.initializer {
            if facts.is_const && !init.needs_inference {
                if init.is_template_literal {
                    if init.template_is_plain {
                        initializer = KeptInitializer::TemplateAsString;
                    }
                } else {
                    initializer = KeptInitializer::AsIs;
                }
            } else if !facts.is_const || !init.is_template_literal {
                if init.type_is_inferable {
                    binding_type = EmittedType::Inferred;
                }
            }
        }
        if matches!(initializer, KeptInitializer::Dropped) && matches!(
            binding_type,
            EmittedType::Unchanged
        ) {
            binding_type = EmittedType::Unknown;
            let is_function = match facts.initializer {
                Some(init) => init.is_function,
                None => false,
            };
            if !is_function {
                needs_explicit_type = true;
            }
        }
    }
    DeclaratorPlan::Emitted { initializer, binding_type, needs_explicit_type }
}

/// A declarator with a type annotation is emitted unchanged, without its
/// initializer.
pub proof fn lemma_annotated_declarator_is_unchanged(facts: DeclaratorFacts)
    requires
        !facts.is_destructuring,
        facts.has_type_annotation,
    ensures
        spec_transform_variable_declarator(facts, false) == (DeclaratorPlan::Emitted {
            initializer: KeptInitializer::Dropped,
            binding_type: EmittedType::Unchanged,
            needs_explicit_type: false,
        }),
{
}

/// An emitted declarator never carries both a kept initializer and a new
/// type.
pub proof fn lemma_initializer_or_type(facts: DeclaratorFacts, check_binding: bool)
    ensures
        spec_transform_variable_declarator(facts, check_binding) matches DeclaratorPlan::Emitted {
            initializer,
            binding_type,
            ..
        } ==> initializer is Dropped || binding_type is Unchanged,
{
}

/// Whether the variable declaration is emitted at all: an ambient one is
/// not.
pub fn transform_variable_declaration(declare: bool) -> (emitted: bool)
    ensures
        emitted == !declare,
{
    !declare
}

/// The key of a signature.
#[derive(Clone, Copy, Debug, PartialEq, Eq, Structural)]
pub enum SignatureKey {
    /// A plain name.
    Identifier,
    /// A member access; `on_identifier` says that it starts with a name.
    StaticMember { on_identifier: bool },
    /// Anything else; `literal` says that it is a literal.
    Other { literal: bool },
}

/// A computed key is faulted unless it is a name, a member access that
/// starts with a name, or a literal. A key that is not computed never is.
pub open spec fn spec_report_signature_property_key(key: SignatureKey, computed: bool) -> bool {
    computed && match key {
        SignatureKey::Identifier => false,
        SignatureKey::StaticMember { on_identifier } => !on_identifier,
        SignatureKey::Other { literal } => !literal,
    }
}

/// Whether the key of a signature is faulted.
pub fn report_signature_property_key(key: SignatureKey, computed: bool) -> (faulted: bool)
    ensures
        faulted == spec_report_signature_property_key(key, computed),
{
    if !computed {
        return false;
    }
    match key {
        SignatureKey::Identifier => false,
        SignatureKey::StaticMember { on_identifier } => !on_identifier,
        SignatureKey::Other { literal } => !literal,
    }
}

/// The kind of a method signature.
#[derive(Clone, Copy, Debug, PartialEq, Eq, Structural)]
pub enum MethodSignatureKind {
    Method,
    Getter,
    Setter,
}

/// What is faulted of a method signature that declares no return type.
#[derive(Clone, Copy, Debug, PartialEq, Eq, Structural)]
pub enum ReturnTypeFault {
    /// The return type of a method would have to be inferred.
    InferredTypeOfExpression,
    /// An accessor must declare its return type.
    AccessorMustHaveExplicitReturnType,
}

/// The fault of a method signature for its return type: none where it
/// declares one, and none for a setter.
pub open spec fn spec_visit_ts_method_signature(
    has_return_type: bool,
    kind: MethodSignatureKind,
) -> Option<ReturnTypeFault> {
    if has_return_type {
        None
    } else {
        match kind {
            MethodSignatureKind::Method => Some(ReturnTypeFault::InferredTypeOfExpression),
            MethodSignatureKind::Getter => Some(ReturnTypeFault::AccessorMustHaveExplicitReturnType),
            MethodSignatureKind::Setter => None,
        }
    }
}

/// Decides the fault of a method signature for its return type.
pub fn visit_ts_method_signature(has_return_type: bool, kind: MethodSignatureKind) -> (fault: Option<
    ReturnTypeFault,
>)
    ensures
        fault == spec_visit_ts_method_signature(has_return_type, kind),
{
    if has_return_type {
        return None;
    }
    match kind {
        MethodSignatureKind::Method => Some(ReturnTypeFault::InferredTypeOfExpression),
        MethodSignatureKind::Getter => Some(ReturnTypeFault::AccessorMustHaveExplicitReturnType),
        MethodSignatureKind::Setter => None,
    }
}

/// The body of a module declaration.
#[derive(Clone, Copy, Debug, PartialEq, Eq, Structural)]
pub enum ModuleBody {
    /// `namespace a.b { }`: another module declaration.
    Nested,
    /// `{ ... }`
    Block,
}

/// What becomes of a module declaration.
#[derive(Clone, Copy, Debug, PartialEq, Eq, Structural)]
pub enum ModulePlan {
    /// It is copied as it is.
    Copied,
    /// It is emitted anew around its transformed nested declaration.
    AroundNested,
    /// It is emitted anew around its transformed block.
    AroundBlock,
}

/// An ambient module declaration and one without body are copied; any other
/// is emitted anew around its transformed body.
pub open spec fn spec_transform_ts_module_declaration(
    declare: bool,
    body: Option<ModuleBody>,
) -> ModulePlan {
    if declare {
        ModulePlan::Copied
    } else {
        match body {
            None => ModulePlan::Copied,
            Some(ModuleBody::Nested) => ModulePlan::AroundNested,
            Some(ModuleBody::Block) => ModulePlan::AroundBlock,
        }
    }
}

/// Decides what becomes of a module declaration.
pub fn transform_ts_module_declaration(declare: bool, body: Option<ModuleBody>) -> (plan: ModulePlan)
    ensures
        plan == spec_transform_ts_module_declaration(declare, body),
{
    if declare {
        return ModulePlan::Copied;
    }
    match body {
        None => ModulePlan::Copied,
        Some(ModuleBody::Nested) => ModulePlan::AroundNested,
        Some(ModuleBody::Block) => ModulePlan::AroundBlock,
    }
}

} // verus!
