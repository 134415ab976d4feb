//! The settings of a profile, and the two kinds of text among them that
//! have a form of their own.

use crate::error::Error;
use crate::error::ErrorModel;
use crate::pattern::accepts;
use crate::pattern::is_match;
use crate::pattern::valid_region;
use crate::pattern::valid_zone;
use vstd::prelude::*;
use vstd::string::*;

verus! {

/// A region of the cloud platform. The text is kept as it was given.
#[derive(Debug, PartialEq, Eq)]
pub struct Region(String);

impl View for Region {
    type V = Seq<char>;

    closed spec fn view(&self) -> Seq<char> {
        self.0@
    }
}

impl Clone for Region {
    fn clone(&self) -> (copy: Self)
        ensures
            copy@ == self@,
    {
        Region(self.0.clone())
    }
}

impl Region {
    /// The region that `text` names. Fails with `InvalidRegion` where the
    /// text has not the form of a region.
    pub fn parse(text: &str) -> (result: Result<Region, Error>)
        ensures
            match result {
                Ok(region) => valid_region(text@) && region@ == text@,
                Err(failure) => !valid_region(text@) && failure@ == ErrorModel::InvalidRegion(
                    text@,
                ),
            },
    {
        if accepts(is_match("^[a-z]+-[a-z]+[0-9]$", text)) {
            Ok(Region(text.to_owned()))
        } else {
            Err(Error::InvalidRegion(text.to_owned()))
        }
    }

    /// The region that a profile's text gives, taken as it stands.
    pub(crate) fn verbatim(text: String) -> (region: Region)
        ensures
            region@ == text@,
    {
        Region(text)
    }

    /// The text of the region.
    pub fn as_str(&self) -> (text: &str)
        ensures
            text@ == self@,
    {
        self.0.as_str()
    }
}

impl std::str::FromStr for Region {
    type Err = Error;

    fn from_str(s: &str) -> (result: Result<Self, Self::Err>)
        ensures
            match result {
                Ok(region) => valid_region(s@) && region@ == s@,
                Err(failure) => !valid_region(s@) && failure@ == ErrorModel::InvalidRegion(s@),
            },
    {
        Region::parse(s)
    }
}

/// A zone of the cloud platform. The text is kept as it was given.
#[derive(Debug, PartialEq, Eq)]
pub struct Zone(String);

impl View for Zone {
    type V = Seq<char>;

    closed spec fn view(&self) -> Seq<char> {
        self.0@
    }
}

impl Clone for Zone {
    fn clone(&self) -> (copy: Self)
        ensures
            copy@ == self@,
    {
        Zone(self.0.clone())
    }
}

impl Zone {
    /// The zone that `text` names. Fails with `InvalidZone` where the text
    /// has not the form of a zone.
    pub fn parse(text: &str) -> (result: Result<Zone, Error>)
        ensures
            match result {
                Ok(zone) => valid_zone(text@) && zone@ == text@,
                Err(failure) => !valid_zone(text@) && failure@ == ErrorModel::InvalidZone(text@),
            },
    {
        if accepts(is_match("^[a-z]+-[a-z]+[0-9]-[a-z]$", text)) {
            Ok(Zone(text.to_owned()))
        } else {
            Err(Error::InvalidZone(text.to_owned()))
        }
    }

    /// The zone that a profile's text gives, taken as it stands.
    pub(crate) fn verbatim(text: String) -> (zone: Zone)
        ensures
            zone@ == text@,
    {
        Zone(text)
    }

    /// The text of the zone.
    pub fn as_str(&self) -> (text: &str)
        ensures
            text@ == self@,
    {
        self.0.as_str()
    }
}

impl std::str::FromStr for Zone {
    type Err = Error;

    fn from_str(s: &str) -> (result: Result<Self, Self::Err>)
        ensures
            match result {
                Ok(zone) => valid_zone(s@) && zone@ == s@,
                Err(failure) => !valid_zone(s@) && failure@ == ErrorModel::InvalidZone(s@),
            },
    {
        Zone::parse(s)
    }
}

/// The text that `value` holds, if any.
pub open spec fn text_of(value: Option<String>) -> Option<Seq<char>> {
    match value {
        Some(text) => Some(text@),
        None => None,
    }
}

/// The text of the zone that `value` holds, if any.
pub open spec fn zone_text(value: Option<Zone>) -> Option<Seq<char>> {
    match value {
        Some(zone) => Some(zone@),
        None => None,
    }
}

/// The text of the region that `value` holds, if any.
pub open spec fn region_text(value: Option<Region>) -> Option<Seq<char>> {
    match value {
        Some(region) => Some(region@),
        None => None,
    }
}

/// A copy of an optional text.
fn copy_text(value: &Option<String>) -> (copy: Option<String>)
    ensures
        text_of(copy) == text_of(*value),
{
    match value {
        Some(text) => Some(text.clone()),
        None => None,
    }
}

/// A copy of an optional zone.
fn copy_zone(value: &Option<Zone>) -> (copy: Option<Zone>)
    ensures
        zone_text(copy) == zone_text(*value),
{
    match value {
        Some(zone) => Some(zone.clone()),
        None => None,
    }
}

/// A copy of an optional region.
fn copy_region(value: &Option<Region>) -> (copy: Option<Region>)
    ensures
        region_text(copy) == region_text(*value),
{
    match value {
        Some(region) => Some(region.clone()),
        None => None,
    }
}

/// What the `core` block holds.
pub struct CoreModel {
    pub project: Option<Seq<char>>,
    pub account: Option<Seq<char>>,
}

/// What the `compute` block holds.
pub struct ComputeModel {
    pub zone: Option<Seq<char>>,
    pub region: Option<Seq<char>>,
}

/// What the settings of a profile hold.
pub struct PropertiesModel {
    pub core: Option<CoreModel>,
    pub compute: Option<ComputeModel>,
}

/// The settings of the `core` block.
#[derive(Debug, PartialEq, Eq)]
pub struct CoreProperties {
    /// The project, `core/project`.
    pub project: Option<String>,
    /// The account, `core/account`.
    pub account: Option<String>,
}

impl View for CoreProperties {
    type V = CoreModel;

    open spec fn view(&self) -> CoreModel {
        CoreModel { project: text_of(self.project), account: text_of(self.account) }
    }
}

impl Clone for CoreProperties {
    fn clone(&self) -> (copy: Self)
        ensures
            copy@ == self@,
    {
        CoreProperties { project: copy_text(&self.project), account: copy_text(&self.account) }
    }
}

impl Default for CoreProperties {
    fn default() -> (block: Self)
        ensures
            block@ == (CoreModel { project: None, account: None }),
    {
        CoreProperties { project: None, account: None }
    }
}

/// The settings of the `compute` block.
#[derive(Debug, PartialEq, Eq)]
pub struct ComputeProperties {
    /// The default zone, `compute/zone`.
    pub zone: Option<Zone>,
    /// The default region, `compute/region`.
    pub region: Option<Region>,
}

impl View for ComputeProperties {
    type V = ComputeModel;

    open spec fn view(&self) -> ComputeModel {
        ComputeModel { zone: zone_text(self.zone), region: region_text(self.region) }
    }
}

impl Clone for ComputeProperties {
    fn clone(&self) -> (copy: Self)
        ensures
            copy@ == self@,
    {
        ComputeProperties { zone: copy_zone(&self.zone), region: copy_region(&self.region) }
    }
}

impl Default for ComputeProperties {
    fn default() -> (block: Self)
        ensures
            block@ == (ComputeModel { zone: None, region: None }),
    {
        ComputeProperties { zone: None, region: None }
    }
}

/// The settings of a profile that the library knows: an optional `core`
/// block and an optional `compute` block.
#[derive(Debug, PartialEq, Eq)]
pub struct Properties {
    /// The `core` block.
    pub core: Option<CoreProperties>,
    /// The `compute` block.
    pub compute: Option<ComputeProperties>,
}

impl View for Properties {
    type V = PropertiesModel;

    open spec fn view(&self) -> PropertiesModel {
        PropertiesModel {
            core: match self.core {
                Some(block) => Some(block@),
                None => None,
            },
            compute: match self.compute {
                Some(block) => Some(block@),
                None => None,
            },
        }
    }
}

impl Clone for Properties {
    fn clone(&self) -> (copy: Self)
        ensures
            copy@ == self@,
    {
        Properties {
            core: match &self.core {
                Some(block) => Some(block.clone()),
                None => None,
            },
            compute: match &self.compute {
                Some(block) => Some(block.clone()),
                None => None,
            },
        }
    }
}

/// What a `PropertiesBuilder` has been given so far.
pub struct BuilderModel {
    pub project: Option<Seq<char>>,
    pub account: Option<Seq<char>>,
    pub zone: Option<Seq<char>>,
    pub region: Option<Seq<char>>,
}

/// The properties that a builder gives: a block is there where one of its
/// two settings was given.
pub open spec fn built(given: BuilderModel) -> PropertiesModel {
    PropertiesModel {
        core: if given.project is Some || given.account is Some {
            Some(CoreModel { project: given.project, account: given.account })
        } else {
            None
        },
        compute: if given.zone is Some || given.region is Some {
            Some(ComputeModel { zone: given.zone, region: given.region })
        } else {
            None
        },
    }
}

/// Collects settings one by one and makes `Properties` of them.
#[derive(Debug)]
pub struct PropertiesBuilder {
    project: Option<String>,
    account: Option<String>,
    zone: Option<Zone>,
    region: Option<Region>,
}

impl View for PropertiesBuilder {
    type V = BuilderModel;

    closed spec fn view(&self) -> BuilderModel {
        BuilderModel {
            project: text_of(self.project),
            account: text_of(self.account),
            zone: zone_text(self.zone),
            region: region_text(self.region),
        }
    }
}

impl Default for PropertiesBuilder {
    fn default() -> (builder: Self)
        ensures
            builder@ == (BuilderModel { project: None, account: None, zone: None, region: None }),
    {
        PropertiesBuilder { project: None, account: None, zone: None, region: None }
    }
}

impl PropertiesBuilder {
    /// The properties made of what was given so far.
    #[must_use]
    pub fn build(&self) -> (properties: Properties)
        ensures
            properties@ == built(self@),
    {
        let core = if self.project.is_some() || self.account.is_some() {
            Some(
                CoreProperties {
                    project: copy_text(&self.project),
                    account: copy_text(&self.account),
                },
            )
        } else {
            None
        };
        let compute = if self.zone.is_some() || self.region.is_some() {
            Some(
                ComputeProperties {
                    zone: copy_zone(&self.zone),
                    region: copy_region(&self.region),
                },
            )
        } else {
            None
        };
        Properties { core, compute }
    }

    /// Sets the project.
    pub fn project(&mut self, project: &str) -> (builder: &mut Self)
        ensures
            builder@ == (BuilderModel { project: Some(project@), ..old(self)@ }),
            *final(self) == *final(builder),
    {
        self.project = Some(project.to_owned());
        self
    }

    /// Sets the account.
    pub fn account(&mut self, account: &str) -> (builder: &mut Self)
        ensures
            builder@ == (BuilderModel { account: Some(account@), ..old(self)@ }),
            *final(self) == *final(builder),
    {
        self.account = Some(account.to_owned());
        self
    }

    /// Sets the zone.
    pub fn zone(&mut self, zone: Zone) -> (builder: &mut Self)
        ensures
            builder@ == (BuilderModel { zone: Some(zone@), ..old(self)@ }),
            *final(self) == *final(builder),
    {
        self.zone = Some(zone);
        self
    }

    /// Sets the region.
    pub fn region(&mut self, region: Region) -> (builder: &mut Self)
        ensures
            builder@ == (BuilderModel { region: Some(region@), ..old(self)@ }),
            *final(self) == *final(builder),
    {
        self.region = Some(region);
        self
    }
}

} // verus!
