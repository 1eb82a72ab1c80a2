//! The artifact record and its attribute types.
//!
//! An artifact carries a display name, a free-text description, a material
//! classification (with an open-ended labelled case), a historical period,
//! a preservation condition with an integer quality score, a site name, an
//! optional geographic coordinate pair, a bundle of four independently
//! optional integer measurements, and an append-only list of notes.
//!
//! All measurements are integers: lengths in millimetres, weights in grams,
//! coordinates in millionths of a degree. Every type with text inside has a
//! view, so that contracts speak of character sequences rather than of
//! `String` values.

use vstd::prelude::*;
use vstd::string::StringExecFns;

verus! {

/// Material classification; the open-ended case carries a free label.
#[derive(Debug)]
pub enum Material {
    Bronze,
    Iron,
    Gold,
    Silver,
    Ceramic,
    Stone,
    Bone,
    Other(String),
}

/// The mathematical value of a [`Material`]: the open-ended label as a
/// character sequence.
#[verifier::ext_equal]
pub enum MaterialModel {
    Bronze,
    Iron,
    Gold,
    Silver,
    Ceramic,
    Stone,
    Bone,
    Other(Seq<char>),
}

impl View for Material {
    type V = MaterialModel;

    open spec fn view(&self) -> MaterialModel {
        match self {
            Material::Bronze => MaterialModel::Bronze,
            Material::Iron => MaterialModel::Iron,
            Material::Gold => MaterialModel::Gold,
            Material::Silver => MaterialModel::Silver,
            Material::Ceramic => MaterialModel::Ceramic,
            Material::Stone => MaterialModel::Stone,
            Material::Bone => MaterialModel::Bone,
            Material::Other(label) => MaterialModel::Other(label@),
        }
    }
}

impl Clone for Material {
    fn clone(&self) -> (res: Self)
        ensures
            res@ == self@,
    {
        match self {
            Material::Bronze => Material::Bronze,
            Material::Iron => Material::Iron,
            Material::Gold => Material::Gold,
            Material::Silver => Material::Silver,
            Material::Ceramic => Material::Ceramic,
            Material::Stone => Material::Stone,
            Material::Bone => Material::Bone,
            Material::Other(label) => Material::Other(label.clone()),
        }
    }
}

impl PartialEq for Material {
    fn eq(&self, other: &Self) -> (r: bool) {
        material_eq(self, other)
    }
}

/// Compares two materials; equal exactly when their models are.
fn material_eq(a: &Material, b: &Material) -> (r: bool)
    ensures
        r == (a@ == b@),
{
    match (a, b) {
        (Material::Bronze, Material::Bronze) => return true,
        (Material::Iron, Material::Iron) => return true,
        (Material::Gold, Material::Gold) => return true,
        (Material::Silver, Material::Silver) => return true,
        (Material::Ceramic, Material::Ceramic) => return true,
        (Material::Stone, Material::Stone) => return true,
        (Material::Bone, Material::Bone) => return true,
        (Material::Other(la), Material::Other(lb)) => return *la == *lb,
        _ => return false,
    }
}

impl vstd::std_specs::cmp::PartialEqSpecImpl for Material {
    open spec fn obeys_eq_spec() -> bool {
        true
    }

    open spec fn eq_spec(&self, other: &Self) -> bool {
        self@ == other@
    }
}

/// Historical period classification.
#[derive(Clone, Copy, Debug, PartialEq, Eq, Structural)]
pub enum Period {
    EarlyBronze,
    MiddleBronze,
    RecentBronze,
    FinalBronze,
    EarlyIron,
    Unknown,
}

/// Preservation condition; each value carries a quality score from 1 to 5.
#[derive(Clone, Copy, Debug, PartialEq, Eq, Structural)]
pub enum Condition {
    Intact,
    Good,
    Fair,
    Fragmentary,
    Poor,
}

impl Condition {
    /// The integer quality score of this condition, between 1 and 5.
    pub open spec fn spec_score(&self) -> u8 {
        match self {
            Condition::Intact => 5,
            Condition::Good => 4,
            Condition::Fair => 3,
            Condition::Fragmentary => 2,
            Condition::Poor => 1,
        }
    }

    /// Returns the quality score, 5 for intact down to 1 for poor.
    #[verifier::when_used_as_spec(spec_score)]
    pub fn score(&self) -> (s: u8)
        ensures
            s == self.spec_score(),
    {
        match self {
            Condition::Intact => 5,
            Condition::Good => 4,
            Condition::Fair => 3,
            Condition::Fragmentary => 2,
            Condition::Poor => 1,
        }
    }
}

/// A geographic coordinate pair, in millionths of a degree.
#[derive(Clone, Copy, Debug, PartialEq, Eq, Structural)]
pub struct Coordinates {
    pub lat_microdeg: i64,
    pub lon_microdeg: i64,
}

/// The measurement bundle: four independently optional integer fields,
/// lengths in millimetres and weight in grams.
#[derive(Clone, Copy, Debug, PartialEq, Eq)]
pub struct Measurements {
    pub length_mm: Option<u32>,
    pub width_mm: Option<u32>,
    pub height_mm: Option<u32>,
    pub weight_g: Option<u32>,
}

impl Measurements {
    /// An empty bundle: every field absent.
    pub fn new() -> (m: Measurements)
        ensures
            m == (Measurements {
                length_mm: None,
                width_mm: None,
                height_mm: None,
                weight_g: None,
            }),
    {
        Measurements { length_mm: None, width_mm: None, height_mm: None, weight_g: None }
    }

    /// Sets the three linear dimensions at once, leaving the weight as it was.
    pub fn with_dimensions(self, length_mm: u32, width_mm: u32, height_mm: u32) -> (m:
        Measurements)
        ensures
            m == (Measurements {
                length_mm: Some(length_mm),
                width_mm: Some(width_mm),
                height_mm: Some(height_mm),
                weight_g: self.weight_g,
            }),
    {
        Measurements {
            length_mm: Some(length_mm),
            width_mm: Some(width_mm),
            height_mm: Some(height_mm),
            weight_g: self.weight_g,
        }
    }

    /// Sets the weight, leaving the dimensions as they were.
    pub fn with_weight(self, weight_g: u32) -> (m: Measurements)
        ensures
            m == (Measurements {
                length_mm: self.length_mm,
                width_mm: self.width_mm,
                height_mm: self.height_mm,
                weight_g: Some(weight_g),
            }),
    {
        Measurements {
            length_mm: self.length_mm,
            width_mm: self.width_mm,
            height_mm: self.height_mm,
            weight_g: Some(weight_g),
        }
    }

    /// The box volume in cubic millimetres, present exactly when all three
    /// dimensions are.
    pub open spec fn spec_volume(self) -> Option<int> {
        match (self.length_mm, self.width_mm, self.height_mm) {
            (Some(l), Some(w), Some(h)) => Some(l as int * w as int * h as int),
            _ => None,
        }
    }

    /// The product of the three dimensions, when all are present.
    pub fn approximate_volume(&self) -> (v: Option<u128>)
        ensures
            match v {
                Some(x) => self.spec_volume() == Some(x as int),
                None => self.spec_volume() is None,
            },
    {
        match (self.length_mm, self.width_mm, self.height_mm) {
            (Some(l), Some(w), Some(h)) => {
                proof {
                    assert(l as int * w as int <= 0xffff_ffff * 0xffff_ffff) by (nonlinear_arith)
                        requires
                            l <= 0xffff_ffffu32,
                            w <= 0xffff_ffffu32,
                    ;
                }
                let lw: u128 = (l as u128) * (w as u128);
                proof {
                    assert(lw as int * h as int <= u128::MAX as int) by (nonlinear_arith)
                        requires
                            lw <= 0xffff_ffff * 0xffff_ffff,
                            h <= 0xffff_ffffu32,
                    ;
                }
                Some(lw * (h as u128))
            },
            _ => None,
        }
    }
}

/// Everything an artifact holds apart from its store-assigned identifier.
#[derive(Debug)]
pub struct ArtifactDetails {
    pub name: String,
    pub description: String,
    pub material: Material,
    pub period: Period,
    pub condition: Condition,
    pub site: String,
    pub coordinates: Option<Coordinates>,
    pub measurements: Measurements,
    pub notes: Vec<String>,
}

/// The mathematical value of [`ArtifactDetails`]: text as character
/// sequences, notes as a sequence of character sequences.
#[verifier::ext_equal]
pub struct DetailsModel {
    pub name: Seq<char>,
    pub description: Seq<char>,
    pub material: MaterialModel,
    pub period: Period,
    pub condition: Condition,
    pub site: Seq<char>,
    pub coordinates: Option<Coordinates>,
    pub measurements: Measurements,
    pub notes: Seq<Seq<char>>,
}

impl View for ArtifactDetails {
    type V = DetailsModel;

    open spec fn view(&self) -> DetailsModel {
        DetailsModel {
            name: self.name@,
            description: self.description@,
            material: self.material@,
            period: self.period,
            condition: self.condition,
            site: self.site@,
            coordinates: self.coordinates,
            measurements: self.measurements,
            notes: self.notes.deep_view(),
        }
    }
}

impl Clone for ArtifactDetails {
    fn clone(&self) -> (res: Self)
        ensures
            res@ == self@,
    {
        let notes = clone_notes(&self.notes);
        ArtifactDetails {
            name: self.name.clone(),
            description: self.description.clone(),
            material: self.material.clone(),
            period: self.period,
            condition: self.condition,
            site: self.site.clone(),
            coordinates: self.coordinates,
            measurements: self.measurements,
            notes,
        }
    }
}

/// Copies a note list element by element.
fn clone_notes(notes: &Vec<String>) -> (res: Vec<String>)
    ensures
        res.deep_view() == notes.deep_view(),
{
    let mut res: Vec<String> = Vec::new();
    let mut i: usize = 0;
    while i < notes.len()
        invariant
            i <= notes@.len(),
            res@.len() == i as int,
            forall|k: int| 0 <= k < i ==> res@[k] == notes@[k],
        decreases notes@.len() - i,
    {
        res.push(notes[i].clone());
        i = i + 1;
    }
    proof {
        assert(res.deep_view() =~= notes.deep_view());
    }
    res
}

/// A cataloged artifact: the store-assigned identifier and the record.
#[derive(Debug)]
pub struct Artifact {
    pub id: u64,
    pub details: ArtifactDetails,
}

/// The mathematical value of an [`Artifact`].
#[verifier::ext_equal]
pub struct ArtifactModel {
    pub id: u64,
    pub details: DetailsModel,
}

impl View for Artifact {
    type V = ArtifactModel;

    open spec fn view(&self) -> ArtifactModel {
        ArtifactModel { id: self.id, details: self.details@ }
    }
}

impl Clone for Artifact {
    fn clone(&self) -> (res: Self)
        ensures
            res@ == self@,
    {
        Artifact { id: self.id, details: self.details.clone() }
    }
}

/// The label of a material classification, the open-ended case tagged with
/// its free label.
pub open spec fn material_label(m: MaterialModel) -> Seq<char> {
    match m {
        MaterialModel::Bronze => "Bronze"@,
        MaterialModel::Iron => "Iron"@,
        MaterialModel::Gold => "Gold"@,
        MaterialModel::Silver => "Silver"@,
        MaterialModel::Ceramic => "Ceramic"@,
        MaterialModel::Stone => "Stone"@,
        MaterialModel::Bone => "Bone"@,
        MaterialModel::Other(label) => "Other: "@ + label,
    }
}

/// The label of a period classification.
pub open spec fn period_label(p: Period) -> Seq<char> {
    match p {
        Period::EarlyBronze => "EarlyBronze"@,
        Period::MiddleBronze => "MiddleBronze"@,
        Period::RecentBronze => "RecentBronze"@,
        Period::FinalBronze => "FinalBronze"@,
        Period::EarlyIron => "EarlyIron"@,
        Period::Unknown => "Unknown"@,
    }
}

/// The label of a condition classification.
pub open spec fn condition_label(c: Condition) -> Seq<char> {
    match c {
        Condition::Intact => "Intact"@,
        Condition::Good => "Good"@,
        Condition::Fair => "Fair"@,
        Condition::Fragmentary => "Fragmentary"@,
        Condition::Poor => "Poor"@,
    }
}

impl Material {
    /// The display label of this material.
    pub fn label(&self) -> (r: String)
        ensures
            r@ == material_label(self@),
    {
        match self {
            Material::Bronze => String::from_str("Bronze"),
            Material::Iron => String::from_str("Iron"),
            Material::Gold => String::from_str("Gold"),
            Material::Silver => String::from_str("Silver"),
            Material::Ceramic => String::from_str("Ceramic"),
            Material::Stone => String::from_str("Stone"),
            Material::Bone => String::from_str("Bone"),
            Material::Other(label) => {
                let mut s = String::from_str("Other: ");
                s.append(label.as_str());
                s
            },
        }
    }
}

impl Period {
    /// The display label of this period.
    pub fn label(&self) -> (r: String)
        ensures
            r@ == period_label(*self),
    {
        match self {
            Period::EarlyBronze => String::from_str("EarlyBronze"),
            Period::MiddleBronze => String::from_str("MiddleBronze"),
            Period::RecentBronze => String::from_str("RecentBronze"),
            Period::FinalBronze => String::from_str("FinalBronze"),
            Period::EarlyIron => String::from_str("EarlyIron"),
            Period::Unknown => String::from_str("Unknown"),
        }
    }
}

impl Condition {
    /// The display label of this condition.
    pub fn label(&self) -> (r: String)
        ensures
            r@ == condition_label(*self),
    {
        match self {
            Condition::Intact => String::from_str("Intact"),
            Condition::Good => String::from_str("Good"),
            Condition::Fair => String::from_str("Fair"),
            Condition::Fragmentary => String::from_str("Fragmentary"),
            Condition::Poor => String::from_str("Poor"),
        }
    }
}

} // verus!
