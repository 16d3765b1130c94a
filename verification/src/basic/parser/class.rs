//! The attributes of classes.

use vstd::prelude::*;
use super::super::result::Error;
use super::super::tree::{
    views, AccessFlags, Attribute, AttributeView, BootstrapMethod, BootstrapMethodView, Export,
    ExportView, InnerClass, Opening, Provider, ProviderView, Requirement,
};
use super::decode::{u16_at, Decoder};
use super::grammar::{
    counted16, fits, flags_in, mapped, parse_u16_list, parses, repeat, u16_in, u16_item, Grammar,
    Parsed,
};

verus! {

/// A bootstrap method: the index of its handle, and a counted list of arguments.
pub open spec fn bootstrap_method_at(s: Seq<u8>, pos: int) -> Parsed<BootstrapMethodView> {
    match u16_at(s, pos) {
        Ok((method_ref, next)) => mapped(
            counted16(u16_item(), s, next),
            |arguments: Seq<u16>| BootstrapMethodView { method_ref, arguments },
        ),
        Err(e) => Err(e),
    }
}

/// The grammar of a bootstrap method.
pub open spec fn bootstrap_method_item() -> Grammar<BootstrapMethodView> {
    |s: Seq<u8>, pos: int| bootstrap_method_at(s, pos)
}

/// The `BootstrapMethods` attribute: a counted list of bootstrap methods.
pub open spec fn bootstrap_methods_at(s: Seq<u8>, pos: int) -> Parsed<AttributeView> {
    mapped(
        counted16(bootstrap_method_item(), s, pos),
        |v: Seq<BootstrapMethodView>| AttributeView::BootstrapMethods(v),
    )
}

/// The `EnclosingMethod` attribute: four bytes.
pub open spec fn enclosing_method_at(s: Seq<u8>, pos: int) -> Parsed<AttributeView> {
    if fits(s, pos, 4) {
        Ok(
            (
                AttributeView::EnclosingMethod {
                    class_index: u16_in(s, pos),
                    method_index: u16_in(s, pos + 2),
                },
                pos + 4,
            ),
        )
    } else {
        Err(Error::LimitExceeded)
    }
}

/// An entry of the `InnerClasses` attribute: eight bytes.
pub open spec fn inner_class_at(s: Seq<u8>, pos: int) -> Parsed<InnerClass> {
    if fits(s, pos, 8) {
        Ok(
            (
                InnerClass {
                    inner_class_info: u16_in(s, pos),
                    outer_class_info: u16_in(s, pos + 2),
                    inner_name: u16_in(s, pos + 4),
                    inner_class_access_flags: flags_in(s, pos + 6),
                },
                pos + 8,
            ),
        )
    } else {
        Err(Error::LimitExceeded)
    }
}

/// The grammar of an inner class.
pub open spec fn inner_class_item() -> Grammar<InnerClass> {
    |s: Seq<u8>, pos: int| inner_class_at(s, pos)
}

/// The `InnerClasses` attribute: a counted list of its entries.
pub open spec fn inner_classes_at(s: Seq<u8>, pos: int) -> Parsed<AttributeView> {
    mapped(counted16(inner_class_item(), s, pos), |v: Seq<InnerClass>| AttributeView::InnerClasses(v))
}

/// The `ModulePackages` attribute: a counted list of package indices.
pub open spec fn module_packages_at(s: Seq<u8>, pos: int) -> Parsed<AttributeView> {
    mapped(counted16(u16_item(), s, pos), |v: Seq<u16>| AttributeView::ModulePackages(v))
}

/// A dependency of a module: six bytes.
pub open spec fn requirement_at(s: Seq<u8>, pos: int) -> Parsed<Requirement> {
    if fits(s, pos, 6) {
        Ok(
            (
                Requirement {
                    index: u16_in(s, pos),
                    flags: flags_in(s, pos + 2),
                    version: u16_in(s, pos + 4),
                },
                pos + 6,
            ),
        )
    } else {
        Err(Error::LimitExceeded)
    }
}

/// The grammar of a requirement.
pub open spec fn requirement_item() -> Grammar<Requirement> {
    |s: Seq<u8>, pos: int| requirement_at(s, pos)
}

/// An exported or opened package: its index, its flags, and a counted
/// list of the modules it is exported or opened to.
pub open spec fn export_at(s: Seq<u8>, pos: int) -> Parsed<ExportView> {
    if fits(s, pos, 4) {
        mapped(
            counted16(u16_item(), s, pos + 4),
            |to: Seq<u16>| ExportView { index: u16_in(s, pos), flags: flags_in(s, pos + 2), to },
        )
    } else {
        Err(Error::LimitExceeded)
    }
}

/// The grammar of an export.
pub open spec fn export_item() -> Grammar<ExportView> {
    |s: Seq<u8>, pos: int| export_at(s, pos)
}

/// A provided service: its index, and a counted list of its implementations.
pub open spec fn provider_at(s: Seq<u8>, pos: int) -> Parsed<ProviderView> {
    match u16_at(s, pos) {
        Ok((index, next)) => mapped(
            counted16(u16_item(), s, next),
            |with: Seq<u16>| ProviderView { index, with },
        ),
        Err(e) => Err(e),
    }
}

/// The grammar of a provider.
pub open spec fn provider_item() -> Grammar<ProviderView> {
    |s: Seq<u8>, pos: int| provider_at(s, pos)
}

/// The `Module` attribute: name, flags and version, and then five counted
/// lists: what it requires, exports, opens, uses and provides.
pub open spec fn module_at(s: Seq<u8>, pos: int) -> Parsed<AttributeView> {
    if !fits(s, pos, 6) {
        Err(Error::LimitExceeded)
    } else {
        match counted16(requirement_item(), s, pos + 6) {
            Ok((requirements, pos1)) => match counted16(export_item(), s, pos1) {
                Ok((exports, pos2)) => match counted16(export_item(), s, pos2) {
                    Ok((opens, pos3)) => match counted16(u16_item(), s, pos3) {
                        Ok((uses, pos4)) => mapped(
                            counted16(provider_item(), s, pos4),
                            |provides: Seq<ProviderView>|
                                AttributeView::Module {
                                    name: u16_in(s, pos),
                                    flags: flags_in(s, pos + 2),
                                    version: u16_in(s, pos + 4),
                                    requires: requirements,
                                    exports,
                                    opens,
                                    uses,
                                    provides,
                                },
                        ),
                        Err(e) => Err(e),
                    },
                    Err(e) => Err(e),
                },
                Err(e) => Err(e),
            },
            Err(e) => Err(e),
        }
    }
}

/// Parses the `BootstrapMethods` attribute.
#[verifier::loop_isolation(false)]
pub fn parse_bootstrap_methods(decoder: &mut Decoder) -> (r: Result<Attribute, Error>)
    ensures
        parses(
            *old(decoder),
            *final(decoder),
            r,
            bootstrap_methods_at(old(decoder).input(), old(decoder).pos()),
        ),
{
    let ghost s = decoder.input();
    let count = decoder.read_u16()?;
    let mut bootstrap_methods: Vec<BootstrapMethod> = Vec::with_capacity(count as usize);
    let mut i: u16 = 0;
    assert(views(bootstrap_methods@) =~= Seq::<BootstrapMethodView>::empty());
    while i < count
        invariant
            i <= count,
            decoder.input() == s,
            counted16(bootstrap_method_item(), s, old(decoder).pos()) == repeat(
                bootstrap_method_item(),
                s,
                decoder.pos(),
                (count - i) as nat,
                views(bootstrap_methods@),
            ),
        decreases count - i,
    {
        let ghost done = views(bootstrap_methods@);
        let method_ref = decoder.read_u16()?;
        let arguments = parse_u16_list(decoder)?;
        let method = BootstrapMethod { method_ref, arguments };
        assert(views(bootstrap_methods@.push(method)) =~= done.push(method@));
        bootstrap_methods.push(method);
        i += 1;
    }
    Ok(Attribute::BootstrapMethods(bootstrap_methods))
}

/// Parses the `EnclosingMethod` attribute.
pub fn parse_enclosing_method(decoder: &mut Decoder) -> (r: Result<Attribute, Error>)
    ensures
        parses(
            *old(decoder),
            *final(decoder),
            r,
            enclosing_method_at(old(decoder).input(), old(decoder).pos()),
        ),
{
    let class_index = decoder.read_u16()?;
    let method_index = decoder.read_u16()?;
    Ok(Attribute::EnclosingMethod { class_index, method_index })
}

/// Parses the `InnerClasses` attribute.
#[verifier::loop_isolation(false)]
pub fn parse_inner_classes(decoder: &mut Decoder) -> (r: Result<Attribute, Error>)
    ensures
        parses(
            *old(decoder),
            *final(decoder),
            r,
            inner_classes_at(old(decoder).input(), old(decoder).pos()),
        ),
{
    let ghost s = decoder.input();
    let count = decoder.read_u16()?;
    let mut inner_classes: Vec<InnerClass> = Vec::with_capacity(count as usize);
    let mut i: u16 = 0;
    while i < count
        invariant
            i <= count,
            decoder.input() == s,
            counted16(inner_class_item(), s, old(decoder).pos()) == repeat(
                inner_class_item(),
                s,
                decoder.pos(),
                (count - i) as nat,
                inner_classes@,
            ),
        decreases count - i,
    {
        let inner_class_info = decoder.read_u16()?;
        let outer_class_info = decoder.read_u16()?;
        let inner_name = decoder.read_u16()?;
        let inner_class_access_flags = AccessFlags::from_bits_truncate(decoder.read_u16()?);
        inner_classes.push(
            InnerClass { inner_class_info, outer_class_info, inner_name, inner_class_access_flags },
        );
        i += 1;
    }
    Ok(Attribute::InnerClasses(inner_classes))
}

/// Parses the `ModulePackages` attribute.
pub fn parse_module_packages(decoder: &mut Decoder) -> (r: Result<Attribute, Error>)
    ensures
        parses(
            *old(decoder),
            *final(decoder),
            r,
            module_packages_at(old(decoder).input(), old(decoder).pos()),
        ),
{
    let packages = parse_u16_list(decoder)?;
    Ok(Attribute::ModulePackages(packages))
}

/// Reads the dependencies of a module.
#[verifier::loop_isolation(false)]
fn parse_requirements(decoder: &mut Decoder) -> (r: Result<Vec<Requirement>, Error>)
    ensures
        final(decoder).input() == old(decoder).input(),
        match counted16(requirement_item(), old(decoder).input(), old(decoder).pos()) {
            Ok((v, next)) => r is Ok && r->Ok_0@ == v && final(decoder).pos() == next,
            Err(e) => r == Err::<Vec<Requirement>, Error>(e),
        },
{
    let ghost s = decoder.input();
    let count = decoder.read_u16()?;
    let mut requirements: Vec<Requirement> = Vec::with_capacity(count as usize);
    let mut i: u16 = 0;
    while i < count
        invariant
            i <= count,
            decoder.input() == s,
            counted16(requirement_item(), s, old(decoder).pos()) == repeat(
                requirement_item(),
                s,
                decoder.pos(),
                (count - i) as nat,
                requirements@,
            ),
        decreases count - i,
    {
        let index = decoder.read_u16()?;
        let flags = AccessFlags::from_bits_truncate(decoder.read_u16()?);
        let version = decoder.read_u16()?;
        requirements.push(Requirement { index, flags, version });
        i += 1;
    }
    Ok(requirements)
}

/// Reads the exported packages of a module.
#[verifier::loop_isolation(false)]
fn parse_exports(decoder: &mut Decoder) -> (r: Result<Vec<Export>, Error>)
    ensures
        final(decoder).input() == old(decoder).input(),
        match counted16(export_item(), old(decoder).input(), old(decoder).pos()) {
            Ok((v, next)) => r is Ok && views(r->Ok_0@) == v && final(decoder).pos() == next,
            Err(e) => r == Err::<Vec<Export>, Error>(e),
        },
{
    let ghost s = decoder.input();
    let count = decoder.read_u16()?;
    let mut exports: Vec<Export> = Vec::with_capacity(count as usize);
    let mut i: u16 = 0;
    assert(views(exports@) =~= Seq::<ExportView>::empty());
    while i < count
        invariant
            i <= count,
            decoder.input() == s,
            counted16(export_item(), s, old(decoder).pos()) == repeat(
                export_item(),
                s,
                decoder.pos(),
                (count - i) as nat,
                views(exports@),
            ),
        decreases count - i,
    {
        let ghost done = views(exports@);
        let index = decoder.read_u16()?;
        let flags = AccessFlags::from_bits_truncate(decoder.read_u16()?);
        let to = parse_u16_list(decoder)?;
        let export = Export { index, flags, to };
        assert(views(exports@.push(export)) =~= done.push(export@));
        exports.push(export);
        i += 1;
    }
    Ok(exports)
}

/// Reads the opened packages of a module.
#[verifier::loop_isolation(false)]
fn parse_opens(decoder: &mut Decoder) -> (r: Result<Vec<Opening>, Error>)
    ensures
        final(decoder).input() == old(decoder).input(),
        match counted16(export_item(), old(decoder).input(), old(decoder).pos()) {
            Ok((v, next)) => r is Ok && views(r->Ok_0@) == v && final(decoder).pos() == next,
            Err(e) => r == Err::<Vec<Opening>, Error>(e),
        },
{
    let ghost s = decoder.input();
    let count = decoder.read_u16()?;
    let mut opens: Vec<Opening> = Vec::with_capacity(count as usize);
    let mut i: u16 = 0;
    assert(views(opens@) =~= Seq::<ExportView>::empty());
    while i < count
        invariant
            i <= count,
            decoder.input() == s,
            counted16(export_item(), s, old(decoder).pos()) == repeat(
                export_item(),
                s,
                decoder.pos(),
                (count - i) as nat,
                views(opens@),
            ),
        decreases count - i,
    {
        let ghost done = views(opens@);
        let index = decoder.read_u16()?;
        let flags = AccessFlags::from_bits_truncate(decoder.read_u16()?);
        let to = parse_u16_list(decoder)?;
        let opening = Opening { index, flags, to };
        assert(views(opens@.push(opening)) =~= done.push(opening@));
        opens.push(opening);
        i += 1;
    }
    Ok(opens)
}

/// Reads the provided services of a module.
#[verifier::loop_isolation(false)]
fn parse_provides(decoder: &mut Decoder) -> (r: Result<Vec<Provider>, Error>)
    ensures
        final(decoder).input() == old(decoder).input(),
        match counted16(provider_item(), old(decoder).input(), old(decoder).pos()) {
            Ok((v, next)) => r is Ok && views(r->Ok_0@) == v && final(decoder).pos() == next,
            Err(e) => r == Err::<Vec<Provider>, Error>(e),
        },
{
    let ghost s = decoder.input();
    let count = decoder.read_u16()?;
    let mut provides: Vec<Provider> = Vec::with_capacity(count as usize);
    let mut i: u16 = 0;
    assert(views(provides@) =~= Seq::<ProviderView>::empty());
    while i < count
        invariant
            i <= count,
            decoder.input() == s,
            counted16(provider_item(), s, old(decoder).pos()) == repeat(
                provider_item(),
                s,
                decoder.pos(),
                (count - i) as nat,
                views(provides@),
            ),
        decreases count - i,
    {
        let ghost done = views(provides@);
        let index = decoder.read_u16()?;
        let with = parse_u16_list(decoder)?;
        let provider = Provider { index, with };
        assert(views(provides@.push(provider)) =~= done.push(provider@));
        provides.push(provider);
        i += 1;
    }
    Ok(provides)
}

/// Parses the `Module` attribute.
pub fn parse_module(decoder: &mut Decoder) -> (r: Result<Attribute, Error>)
    ensures
        parses(*old(decoder), *final(decoder), r, module_at(old(decoder).input(), old(decoder).pos())),
{
    let name = decoder.read_u16()?;
    let flags = AccessFlags::from_bits_truncate(decoder.read_u16()?);
    let version = decoder.read_u16()?;
    let requirements = parse_requirements(decoder)?;
    let exports = parse_exports(decoder)?;
    let opens = parse_opens(decoder)?;
    let uses = parse_u16_list(decoder)?;
    let provides = parse_provides(decoder)?;
    Ok(
        Attribute::Module {
            name,
            flags,
            version,
            requires: requirements,
            exports,
            opens,
            uses,
            provides,
        },
    )
}

} // verus!
