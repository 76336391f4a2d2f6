//! The SPIRV-Cross calls that transpilation makes, declared for Verus.

use vstd::prelude::*;

use spirv_cross2::handle::{Handle, VariableId};
use spirv_cross2::reflect::ShaderResources;
use spirv_cross2::targets::Glsl;
use spirv_cross2::{Compiler, SpirvCrossError};

use crate::error::FogleError;

verus! {

#[verifier::external_type_specification]
#[verifier::external_body]
#[verifier::reject_recursive_types(T)]
pub struct ExCompiler<T>(Compiler<T>);

#[verifier::external_type_specification]
#[verifier::external_body]
pub struct ExGlsl(Glsl);

#[verifier::external_type_specification]
#[verifier::external_body]
pub struct ExShaderResources(ShaderResources);

#[verifier::external_type_specification]
#[verifier::external_body]
#[verifier::reject_recursive_types(T)]
pub struct ExHandle<T>(Handle<T>);

#[verifier::external_type_specification]
#[verifier::external_body]
pub struct ExVariableId(VariableId);

#[verifier::external_type_specification]
#[verifier::external_body]
pub struct ExSpirvCrossError(SpirvCrossError);

/// The kinds of shader resources that transpilation inspects.
#[derive(Debug, PartialEq, Eq, Structural, Clone, Copy)]
pub enum ResourceKind {
    UniformBuffer,
    StageInput,
    StageOutput,
    SampledImage,
    SeparateImage,
    SeparateSamplers,
    GlPlainUniform,
}

/// The decorations that transpilation rewrites.
#[derive(Debug, PartialEq, Eq, Structural, Clone, Copy)]
pub enum DecorationKind {
    Location,
    Binding,
    DescriptorSet,
}

/// One decoration edit: the decoration of the variable whose SPIR-V id is
/// `var` is set to the literal `value`, or unset when `value` is `None`.
#[derive(Debug, PartialEq, Eq, Structural, Clone, Copy)]
pub struct DecorationEdit {
    pub var: u32,
    pub decoration: DecorationKind,
    pub value: Option<u32>,
}

/// The GLSL dialect that SPIR-V is turned back into.
#[derive(Debug, PartialEq, Eq, Structural, Clone, Copy)]
pub enum EsslVersion {
    Glsl320Es,
}

/// The GLSL output options that transpilation sets; every other option
/// keeps SPIRV-Cross's default.
#[derive(Debug, PartialEq, Eq, Structural, Clone, Copy)]
pub struct EsslOptions {
    pub version: EsslVersion,
    pub vulkan_semantics: bool,
    pub enable_420pack_extension: bool,
    pub force_flattened_io_blocks: bool,
    pub enable_storage_image_qualifier_deduction: bool,
}

/// Whether SPIRV-Cross accepts the module whose words are `words`.
pub uninterp spec fn spirv_cross_parses(words: Seq<u32>) -> bool;

/// Whether SPIRV-Cross can reflect the resources of the module `words`.
pub uninterp spec fn spirv_cross_reflects(words: Seq<u32>) -> bool;

/// The resources of one kind that SPIRV-Cross reflects out of the module
/// `words`, each as its variable's SPIR-V id and its name, in SPIRV-Cross's
/// order; `None` when SPIRV-Cross refuses to list them.
pub uninterp spec fn spirv_cross_resources(words: Seq<u32>, kind: ResourceKind) -> Option<
    Seq<(u32, Seq<char>)>,
>;

/// The GLSL source that SPIRV-Cross writes for the module `words` after the
/// decoration edits `edits`, made in order, with the output options
/// `options`; `None` when it refuses.
pub uninterp spec fn spirv_cross_essl(
    words: Seq<u32>,
    edits: Seq<DecorationEdit>,
    options: EsslOptions,
) -> Option<Seq<char>>;

/// A reflected resource: its variable's SPIR-V id and name, and the handle by
/// which the compiler that reflected it refers to the variable.
pub struct SpvResource {
    pub var: u32,
    pub name: String,
    handle: Handle<VariableId>,
}

/// The ids and names of a list of resources.
spec fn resource_list(v: Seq<SpvResource>) -> Seq<(u32, Seq<char>)> {
    Seq::new(v.len(), |i: int| (v[i].var, v[i].name@))
}

/// A SPIRV-Cross GLSL compiler for one module: the module's words, and the
/// decoration edits made on the compiler since, in order.  Only this module
/// builds one, from the words the compiler was made from, and every edit
/// goes through `set_decoration`.
pub struct EsslModule {
    compiler: Compiler<Glsl>,
    words: Ghost<Seq<u32>>,
    edits: Ghost<Seq<DecorationEdit>>,
}

/// A module with its reflected resources, and the resources of the kind
/// listed last.
pub struct Reflection {
    module: EsslModule,
    resources: ShaderResources,
    table: Vec<SpvResource>,
}

/// `spirv_cross2::Compiler::<Glsl>::new` on the module `words`: succeeds
/// exactly when SPIRV-Cross accepts the module.
#[verifier::external_body]
fn parse_module(words: &Vec<u32>) -> (r: Result<Compiler<Glsl>, SpirvCrossError>)
    ensures
        r is Ok <==> spirv_cross_parses(words@),
{
    Compiler::<Glsl>::new(spirv_cross2::Module::from_words(words.as_slice()))
}

/// `Compiler::shader_resources`: succeeds exactly when SPIRV-Cross can reflect
/// the module.
#[verifier::external_body]
fn shader_resources(module: &EsslModule) -> (r: Result<ShaderResources, SpirvCrossError>)
    ensures
        r is Ok <==> spirv_cross_reflects(module.words@),
{
    module.compiler.shader_resources()
}

/// `ShaderResources::resources_for_type`: the resources of one kind, as
/// SPIRV-Cross reflects them out of the module.
#[verifier::external_body]
fn resources_for_type(reflection: &Reflection, kind: ResourceKind) -> (r: Result<
    Vec<SpvResource>,
    SpirvCrossError,
>)
    ensures
        match spirv_cross_resources(reflection.module.words@, kind) {
            Some(list) => r matches Ok(v) && resource_list(v@) == list,
            None => r is Err,
        },
{
    let ty = match kind {
        ResourceKind::UniformBuffer => spirv_cross2::reflect::ResourceType::UniformBuffer,
        ResourceKind::StageInput => spirv_cross2::reflect::ResourceType::StageInput,
        ResourceKind::StageOutput => spirv_cross2::reflect::ResourceType::StageOutput,
        ResourceKind::SampledImage => spirv_cross2::reflect::ResourceType::SampledImage,
        ResourceKind::SeparateImage => spirv_cross2::reflect::ResourceType::SeparateImage,
        ResourceKind::SeparateSamplers => spirv_cross2::reflect::ResourceType::SeparateSamplers,
        ResourceKind::GlPlainUniform => spirv_cross2::reflect::ResourceType::GlPlainUniform,
    };
    let list = reflection.resources.resources_for_type(ty)?;
    Ok(list.map(|r| SpvResource { var: r.id.id(), name: r.name.to_string(), handle: r.id }).collect())
}

/// `Compiler::set_decoration` on the `index`th resource listed last: `None`
/// unsets the decoration, `Some(v)` sets it to the literal `v`.  The handle
/// comes from this compiler and a literal suits all three decorations, so
/// the call succeeds; the edit joins the end of the compiler's edits.
#[verifier::external_body]
fn set_decoration(
    reflection: &mut Reflection,
    index: usize,
    decoration: DecorationKind,
    value: Option<u32>,
) -> (r: Result<(), SpirvCrossError>)
    requires
        index < old(reflection).table@.len(),
    ensures
        r is Ok,
        final(reflection).module.words@ == old(reflection).module.words@,
        final(reflection).module.edits@ == old(reflection).module.edits@.push(
            DecorationEdit { var: old(reflection).table@[index as int].var, decoration, value },
        ),
        final(reflection).table@ == old(reflection).table@,
{
    let decoration = match decoration {
        DecorationKind::Location => spirv_cross2::spirv::Decoration::Location,
        DecorationKind::Binding => spirv_cross2::spirv::Decoration::Binding,
        DecorationKind::DescriptorSet => spirv_cross2::spirv::Decoration::DescriptorSet,
    };
    let value = value.map(spirv_cross2::reflect::DecorationValue::Literal);
    let handle = reflection.table[index].handle;
    reflection.module.compiler.set_decoration(handle, decoration, value)
}

/// `Compiler::compile` with the given GLSL options, the output source as a
/// string: what SPIRV-Cross writes for the module after its edits.
#[verifier::external_body]
fn compile_essl(module: EsslModule, options: &EsslOptions) -> (r: Result<String, SpirvCrossError>)
    ensures
        match spirv_cross_essl(module.words@, module.edits@, *options) {
            Some(s) => r matches Ok(t) && t@ == s,
            None => r is Err,
        },
{
    let mut opts = spirv_cross2::compile::glsl::CompilerOptions::default();
    opts.version = match options.version {
        EsslVersion::Glsl320Es => spirv_cross2::compile::glsl::GlslVersion::Glsl320Es,
    };
    opts.vulkan_semantics = options.vulkan_semantics;
    opts.enable_420pack_extension = options.enable_420pack_extension;
    opts.force_flattened_io_blocks = options.force_flattened_io_blocks;
    opts.common.enable_storage_image_qualifier_deduction = options.enable_storage_image_qualifier_deduction;
    Ok(module.compiler.compile(&opts)?.to_string())
}

impl EsslModule {
    /// The words of the module.
    pub closed spec fn words(&self) -> Seq<u32> {
        self.words@
    }

    /// The decoration edits made so far, in order.
    pub closed spec fn edits(&self) -> Seq<DecorationEdit> {
        self.edits@
    }

    /// A compiler for the module `words`, with no edits: refused exactly when
    /// SPIRV-Cross does not accept the module.
    pub fn new(words: &Vec<u32>) -> (r: Result<Self, FogleError>)
        ensures
            r is Ok <==> spirv_cross_parses(words@),
            r matches Ok(m) ==> m.words() == words@ && m.edits() == Seq::<DecorationEdit>::empty(),
            r matches Err(e) ==> e == FogleError::SpirvCross,
    {
        match parse_module(words) {
            Ok(compiler) => Ok(EsslModule { compiler, words: Ghost(words@), edits: Ghost(Seq::empty()) }),
            Err(_) => Err(FogleError::SpirvCross),
        }
    }

    /// Reflects the module's resources: refused exactly when SPIRV-Cross
    /// cannot.
    pub fn reflect(self) -> (r: Result<Reflection, FogleError>)
        ensures
            r is Ok <==> spirv_cross_reflects(self.words()),
            r matches Ok(c) ==> c.module().words() == self.words() && c.module().edits()
                == self.edits() && c.listed() == Seq::<(u32, Seq<char>)>::empty(),
            r matches Err(e) ==> e == FogleError::SpirvCross,
    {
        match shader_resources(&self) {
            Ok(resources) => {
                let r = Reflection { module: self, resources, table: Vec::new() };
                assert(resource_list(r.table@) =~= Seq::<(u32, Seq<char>)>::empty());
                Ok(r)
            },
            Err(_) => Err(FogleError::SpirvCross),
        }
    }

    /// The GLSL source that SPIRV-Cross writes for the module after its
    /// edits, with `options`.
    pub fn compile(self, options: &EsslOptions) -> (r: Result<String, FogleError>)
        ensures
            match spirv_cross_essl(self.words(), self.edits(), *options) {
                Some(s) => r matches Ok(t) && t@ == s,
                None => r == Err::<String, FogleError>(FogleError::SpirvCross),
            },
    {
        match compile_essl(self, options) {
            Ok(s) => Ok(s),
            Err(_) => Err(FogleError::SpirvCross),
        }
    }
}

impl Reflection {
    /// The module being reflected.
    pub closed spec fn module(&self) -> EsslModule {
        self.module
    }

    /// The resources listed last, as ids and names.
    pub closed spec fn listed(&self) -> Seq<(u32, Seq<char>)> {
        resource_list(self.table@)
    }

    /// Lists the resources of one kind (they become the ones listed last);
    /// refused when SPIRV-Cross refuses, leaving the compiler as it was.
    pub fn list(&mut self, kind: ResourceKind) -> (r: Result<usize, FogleError>)
        ensures
            final(self).module() == old(self).module(),
            match spirv_cross_resources(old(self).module().words(), kind) {
                Some(l) => r matches Ok(n) && n == l.len() && final(self).listed() == l,
                None => r == Err::<usize, FogleError>(FogleError::SpirvCross),
            },
    {
        match resources_for_type(self, kind) {
            Ok(list) => {
                let n = list.len();
                self.table = list;
                Ok(n)
            },
            Err(_) => Err(FogleError::SpirvCross),
        }
    }

    /// The name of the `index`th resource listed last.
    pub fn name(&self, index: usize) -> (r: &String)
        requires
            index < self.listed().len(),
        ensures
            r@ == self.listed()[index as int].1,
    {
        &self.table[index].name
    }

    /// Sets or unsets a decoration of the `index`th resource listed last;
    /// the edit joins the end of the module's edits.
    pub fn decorate(&mut self, index: usize, decoration: DecorationKind, value: Option<u32>)
        requires
            index < old(self).listed().len(),
        ensures
            final(self).module().words() == old(self).module().words(),
            final(self).module().edits() == old(self).module().edits().push(
                DecorationEdit { var: old(self).listed()[index as int].0, decoration, value },
            ),
            final(self).listed() == old(self).listed(),
    {
        let _ = set_decoration(self, index, decoration, value);
    }

    /// Ends reflection and hands the module back.
    pub fn into_module(self) -> (r: EsslModule)
        ensures
            r == self.module(),
    {
        self.module
    }
}

} // verus!
