//! Extraction of a model's renderable parts. The engine's asset stores are
//! read by the caller; what to read and what the findings mean is decided here.

use crate::descriptor::MLib;
use crate::names::{mesh_key, tag_text, variant_key};
use crate::registry::Models;
use bevy::asset::UntypedHandle;
use vstd::prelude::*;

verus! {

/// A sub-mesh to be read: the bundle, and the name of the sub-mesh inside it.
pub struct SubMeshRequest {
    pub bundle: UntypedHandle,
    pub name: String,
}

/// What the asset stores hold for a requested sub-mesh.
pub enum SubMeshFound {
    /// The bundle is not in the store: it never loaded.
    BundleAbsent,
    /// The bundle has no sub-mesh of the requested name.
    NameAbsent,
    /// The bundle names the sub-mesh, but the sub-mesh is not in the store.
    SubMeshAbsent,
    /// The sub-mesh has no geometric primitive.
    NoPrimitive,
    /// The first primitive of the sub-mesh.
    Primitive { mesh: UntypedHandle, material: Option<UntypedHandle> },
}

/// A bundle whose content does not match the descriptor.
#[derive(Debug, Clone, Copy, PartialEq, Eq, Structural)]
pub enum IntegrityError {
    /// The bundle has no sub-mesh of the expected name.
    NameAbsent,
    /// The named sub-mesh is missing from the store.
    SubMeshAbsent,
    /// The sub-mesh has no geometric primitive.
    NoPrimitive,
    /// The first primitive has no material.
    NoMaterial,
}

/// Mesh and material of a model.
pub struct MeshParts {
    pub mesh: UntypedHandle,
    pub mat: UntypedHandle,
}

/// What the findings mean: nothing to render where the bundle never loaded,
/// mesh and material of the first primitive where all is there, and an
/// integrity error for everything in between.
pub open spec fn parts_of(found: SubMeshFound) -> Result<Option<MeshParts>, IntegrityError> {
    match found {
        SubMeshFound::BundleAbsent => Ok(None),
        SubMeshFound::NameAbsent => Err(IntegrityError::NameAbsent),
        SubMeshFound::SubMeshAbsent => Err(IntegrityError::SubMeshAbsent),
        SubMeshFound::NoPrimitive => Err(IntegrityError::NoPrimitive),
        SubMeshFound::Primitive { mesh, material } => match material {
            Some(mat) => Ok(Some(MeshParts { mesh, mat })),
            None => Err(IntegrityError::NoMaterial),
        },
    }
}

/// Judges what was found for a requested sub-mesh.
pub fn select_parts(found: SubMeshFound) -> (parts: Result<Option<MeshParts>, IntegrityError>)
    ensures
        parts == parts_of(found),
{
    match found {
        SubMeshFound::BundleAbsent => Ok(None),
        SubMeshFound::NameAbsent => Err(IntegrityError::NameAbsent),
        SubMeshFound::SubMeshAbsent => Err(IntegrityError::SubMeshAbsent),
        SubMeshFound::NoPrimitive => Err(IntegrityError::NoPrimitive),
        SubMeshFound::Primitive { mesh, material } => match material {
            Some(mat) => Ok(Some(MeshParts { mesh, mat })),
            None => Err(IntegrityError::NoMaterial),
        },
    }
}

impl Models {
    /// The mesh slot that an extraction for `mlib` and `option` reads.
    pub open spec fn slot(&self, mlib: MLib, option: Option<Seq<char>>) -> Option<UntypedHandle> {
        self@[mlib].meshes[variant_key(option, self@[mlib].md.model_path)]
    }

    /// Whether an extraction for `mlib` and `option` can be asked for: the
    /// identity has an entry, and the entry has the key of the variant.
    pub fn can_extract(&self, mlib: &MLib, option: Option<&str>) -> (possible: bool)
        ensures
            possible == (self@.contains_key(*mlib) && self.holds_key(
                *mlib,
                self@[*mlib].md.model_path,
                tag_text(option),
            )),
    {
        match self.get_data(mlib) {
            Some(md) => self.has_mesh(mlib, md.model_path.as_str(), option),
            None => false,
        }
    }

    /// First half of an extraction: which sub-mesh is to be read. Where the
    /// model's bundle was not found when the registry was built there is
    /// nothing to read, and no request is made. Otherwise the request names
    /// the bundle and, as sub-mesh, the key of the variant.
    pub fn extract_request(&self, mlib: &MLib, option: Option<&str>) -> (request: Option<
        SubMeshRequest,
    >)
        requires
            self@.contains_key(*mlib),
            self.holds_key(*mlib, self@[*mlib].md.model_path, tag_text(option)),
        ensures
            request is Some <==> self.slot(*mlib, tag_text(option)) is Some,
            request is Some ==> request->0.bundle == self.slot(*mlib, tag_text(option))->0,
            request is Some ==> request->0.name@ == variant_key(
                tag_text(option),
                self@[*mlib].md.model_path,
            ),
    {
        match self.get_data(mlib) {
            Some(md) => {
                match self.get_mesh(mlib, md.model_path.as_str(), option) {
                    Some(bundle) => Some(
                        SubMeshRequest { bundle, name: mesh_key(option, md.model_path.as_str()) },
                    ),
                    None => None,
                }
            },
            None => None,
        }
    }
}

} // verus!
