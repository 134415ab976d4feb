//! Properties as text and back: sections `[core]` and `[compute]` with one
//! `key=value` line for each setting.

use crate::error::Error;
use crate::error::ErrorModel;
use crate::error::LoadFailure;
use crate::error::LoadFailureModel;
use crate::ini::ini_lines;
use crate::ini::line_models;
use crate::ini::lines_text;
use crate::ini::parse_lines;
use crate::ini::same_lines;
use crate::ini::write_lines;
use crate::ini::Line;
use crate::ini::LineModel;
use crate::properties::built;
use crate::properties::BuilderModel;
use crate::properties::ComputeModel;
use crate::properties::ComputeProperties;
use crate::properties::CoreModel;
use crate::properties::CoreProperties;
use crate::properties::Properties;
use crate::properties::PropertiesModel;
use crate::properties::text_of;
use crate::properties::Region;
use crate::properties::Zone;
use crate::text::same_text;
use vstd::prelude::*;
use vstd::string::*;

verus! {

/// The line of one setting: none where the setting is absent.
pub open spec fn setting_lines(key: Seq<char>, value: Option<Seq<char>>) -> Seq<LineModel> {
    match value {
        Some(value) => seq![LineModel::Value { key, value }],
        None => Seq::empty(),
    }
}

/// The lines of one block: its header and its settings, or nothing at all
/// where both settings are absent.
pub open spec fn block_lines(
    name: Seq<char>,
    first_key: Seq<char>,
    first: Option<Seq<char>>,
    second_key: Seq<char>,
    second: Option<Seq<char>>,
) -> Seq<LineModel> {
    if first is None && second is None {
        Seq::empty()
    } else {
        seq![LineModel::Section { name }] + setting_lines(first_key, first) + setting_lines(
            second_key,
            second,
        )
    }
}

/// The lines of the `core` block.
pub open spec fn core_lines(core: Option<CoreModel>) -> Seq<LineModel> {
    match core {
        Some(block) => block_lines(
            "core"@,
            "project"@,
            block.project,
            "account"@,
            block.account,
        ),
        None => Seq::empty(),
    }
}

/// The lines of the `compute` block.
pub open spec fn compute_lines(compute: Option<ComputeModel>) -> Seq<LineModel> {
    match compute {
        Some(block) => block_lines("compute"@, "zone"@, block.zone, "region"@, block.region),
        None => Seq::empty(),
    }
}

/// The lines of properties: the `core` block, then the `compute` block.
pub open spec fn property_lines(properties: PropertiesModel) -> Seq<LineModel> {
    core_lines(properties.core) + compute_lines(properties.compute)
}

/// The text of properties.
pub open spec fn encoded(properties: PropertiesModel) -> Seq<char> {
    lines_text(property_lines(properties))
}

/// Where in a profile's text a line stands.
#[derive(Copy, Clone, Debug, PartialEq, Eq, Structural)]
pub enum Place {
    /// Before the first section header.
    Top,
    /// Under `[core]`.
    Core,
    /// Under `[compute]`.
    Compute,
    /// Under a section that the library does not know.
    Elsewhere,
}

/// What has been read of a profile's text so far.
pub struct Reading {
    /// Where the next line stands.
    pub place: Place,
    /// Whether `[core]` has been met.
    pub core_seen: bool,
    pub project: Option<Seq<char>>,
    pub account: Option<Seq<char>>,
    /// Whether `[compute]` has been met.
    pub compute_seen: bool,
    pub zone: Option<Seq<char>>,
    pub region: Option<Seq<char>>,
}

/// Nothing read yet.
pub open spec fn nothing_read() -> Reading {
    Reading {
        place: Place::Top,
        core_seen: false,
        project: None,
        account: None,
        compute_seen: false,
        zone: None,
        region: None,
    }
}

/// The properties that a reading comes to: a block is there where its
/// header was met.
pub open spec fn finished(reading: Reading) -> PropertiesModel {
    PropertiesModel {
        core: if reading.core_seen {
            Some(CoreModel { project: reading.project, account: reading.account })
        } else {
            None
        },
        compute: if reading.compute_seen {
            Some(ComputeModel { zone: reading.zone, region: reading.region })
        } else {
            None
        },
    }
}

/// Setting one value: a second value for one setting is a failure.
pub open spec fn assigned(
    key: Seq<char>,
    held: Option<Seq<char>>,
    value: Seq<char>,
) -> Result<Option<Seq<char>>, LoadFailureModel> {
    if held is Some {
        Err(LoadFailureModel::DuplicateField(key))
    } else {
        Ok(Some(value))
    }
}

/// Reading one assignment. Under `[core]` it sets `project` or `account`,
/// under `[compute]` `zone` or `region`; other keys, and all keys under
/// other sections, are passed over. Before the first header an assignment
/// to `core` or `compute` is a failure and any other is passed over.
pub open spec fn read_value(reading: Reading, key: Seq<char>, value: Seq<char>) -> Result<
    Reading,
    LoadFailureModel,
> {
    match reading.place {
        Place::Top => if key == "core"@ || key == "compute"@ {
            Err(LoadFailureModel::NotASection(key))
        } else {
            Ok(reading)
        },
        Place::Core => if key == "project"@ {
            match assigned(key, reading.project, value) {
                Ok(project) => Ok(Reading { project, ..reading }),
                Err(failure) => Err(failure),
            }
        } else if key == "account"@ {
            match assigned(key, reading.account, value) {
                Ok(account) => Ok(Reading { account, ..reading }),
                Err(failure) => Err(failure),
            }
        } else {
            Ok(reading)
        },
        Place::Compute => if key == "zone"@ {
            match assigned(key, reading.zone, value) {
                Ok(zone) => Ok(Reading { zone, ..reading }),
                Err(failure) => Err(failure),
            }
        } else if key == "region"@ {
            match assigned(key, reading.region, value) {
                Ok(region) => Ok(Reading { region, ..reading }),
                Err(failure) => Err(failure),
            }
        } else {
            Ok(reading)
        },
        Place::Elsewhere => Ok(reading),
    }
}

/// Reading one section header. A second `[core]` or `[compute]` is a
/// failure.
pub open spec fn read_section(reading: Reading, name: Seq<char>) -> Result<
    Reading,
    LoadFailureModel,
> {
    if name == "core"@ {
        if reading.core_seen {
            Err(LoadFailureModel::DuplicateField(name))
        } else {
            Ok(Reading { place: Place::Core, core_seen: true, ..reading })
        }
    } else if name == "compute"@ {
        if reading.compute_seen {
            Err(LoadFailureModel::DuplicateField(name))
        } else {
            Ok(Reading { place: Place::Compute, compute_seen: true, ..reading })
        }
    } else {
        Ok(Reading { place: Place::Elsewhere, ..reading })
    }
}

/// Reading one line. Empty lines and comments are passed over; a line that
/// the parser refused is a failure.
pub open spec fn read_line(reading: Reading, line: LineModel) -> Result<Reading, LoadFailureModel> {
    match line {
        LineModel::Empty => Ok(reading),
        LineModel::Comment { text } => Ok(reading),
        LineModel::Invalid { report } => Err(LoadFailureModel::Syntax(report)),
        LineModel::Section { name } => read_section(reading, name),
        LineModel::Value { key, value } => read_value(reading, key, value),
    }
}

/// Reading `lines` in order, from `start` on. The first failure ends it.
pub open spec fn read(start: Reading, lines: Seq<LineModel>) -> Result<Reading, LoadFailureModel>
    decreases lines.len(),
{
    if lines.len() == 0 {
        Ok(start)
    } else {
        match read(start, lines.drop_last()) {
            Ok(reading) => read_line(reading, lines.last()),
            Err(failure) => Err(failure),
        }
    }
}

/// The properties that `lines` stand for, or why they stand for none.
pub open spec fn decoded(lines: Seq<LineModel>) -> Result<PropertiesModel, LoadFailureModel> {
    match read(nothing_read(), lines) {
        Ok(reading) => Ok(finished(reading)),
        Err(failure) => Err(failure),
    }
}

/// Whether a result of reading properties is the one that `expected`
/// describes.
pub open spec fn read_as(
    result: Result<Properties, Error>,
    expected: Result<PropertiesModel, LoadFailureModel>,
) -> bool {
    match (result, expected) {
        (Ok(properties), Ok(model)) => properties@ == model,
        (Err(failure), Err(reason)) => failure@ == ErrorModel::LoadingProperties(reason),
        _ => false,
    }
}

/// Adds the line of one setting to `lines`, if the setting is there.
fn push_setting(lines: &mut Vec<Line>, key: &str, value: Option<&str>)
    ensures
        line_models(final(lines)@) == line_models(old(lines)@) + setting_lines(
            key@,
            match value {
                Some(text) => Some(text@),
                None => None,
            },
        ),
{
    match value {
        Some(text) => {
            lines.push(Line::Value { key: key.to_owned(), value: text.to_owned() });
            assert(line_models(lines@) =~= line_models(old(lines)@) + seq![
                LineModel::Value { key: key@, value: text@ },
            ]);
        },
        None => {
            assert(line_models(lines@) =~= line_models(old(lines)@) + Seq::<LineModel>::empty());
        },
    }
}

/// Adds the header of the section `name` to `lines`.
fn push_section(lines: &mut Vec<Line>, name: &str)
    ensures
        line_models(final(lines)@) == line_models(old(lines)@) + seq![
            LineModel::Section { name: name@ },
        ],
{
    lines.push(Line::Section { name: name.to_owned() });
    assert(line_models(lines@) =~= line_models(old(lines)@) + seq![
        LineModel::Section { name: name@ },
    ]);
}

/// The text of an optional text.
fn text_in(value: &Option<String>) -> (text: Option<&str>)
    ensures
        match (text, *value) {
            (Some(a), Some(b)) => a@ == b@,
            (None, None) => true,
            _ => false,
        },
{
    match value {
        Some(text) => Some(text.as_str()),
        None => None,
    }
}

/// The text of an optional zone.
fn zone_in(value: &Option<Zone>) -> (text: Option<&str>)
    ensures
        match (text, *value) {
            (Some(a), Some(b)) => a@ == b@,
            (None, None) => true,
            _ => false,
        },
{
    match value {
        Some(zone) => Some(zone.as_str()),
        None => None,
    }
}

/// The text of an optional region.
fn region_in(value: &Option<Region>) -> (text: Option<&str>)
    ensures
        match (text, *value) {
            (Some(a), Some(b)) => a@ == b@,
            (None, None) => true,
            _ => false,
        },
{
    match value {
        Some(region) => Some(region.as_str()),
        None => None,
    }
}

/// Sets `held` to `value`; a second value for one setting is refused.
fn assign(key: &str, held: &mut Option<String>, value: &str) -> (result: Result<(), LoadFailure>)
    ensures
        match (result, assigned(key@, text_of(*old(held)), value@)) {
            (Ok(_), Ok(now)) => text_of(*final(held)) == now,
            (Err(failure), Err(reason)) => failure@ == reason && *final(held) == *old(held),
            _ => false,
        },
{
    if held.is_some() {
        Err(LoadFailure::DuplicateField(key.to_owned()))
    } else {
        *held = Some(value.to_owned());
        Ok(())
    }
}

impl Properties {
    /// The properties that `lines` stand for. Fails with
    /// `LoadingProperties` at the first line that the parser refused, that
    /// repeats a known section or a known key within its section, or that
    /// assigns to `core` or `compute` before the first header. What the
    /// library does not know is passed over and lost.
    pub fn from_lines(lines: &Vec<Line>) -> (result: Result<Properties, Error>)
        ensures
            read_as(result, decoded(line_models(lines@))),
    {
        let mut place = Place::Top;
        let mut core_seen = false;
        let mut project: Option<String> = None;
        let mut account: Option<String> = None;
        let mut compute_seen = false;
        let mut zone: Option<String> = None;
        let mut region: Option<String> = None;
        let mut i: usize = 0;
        while i < lines.len()
            invariant
                i <= lines@.len(),
                read(nothing_read(), line_models(lines@).take(i as int)) == Ok::<
                    Reading,
                    LoadFailureModel,
                >(
                    Reading {
                        place,
                        core_seen,
                        project: text_of(project),
                        account: text_of(account),
                        compute_seen,
                        zone: text_of(zone),
                        region: text_of(region),
                    },
                ),
            decreases lines@.len() - i,
        {
            let ghost before = line_models(lines@).take(i as int);
            let ghost all = line_models(lines@);
            assert(all.take(i + 1).drop_last() == before);
            assert(all.take(i + 1).last() == lines@[i as int]@);
            let outcome: Result<(), LoadFailure> = match &lines[i] {
                Line::Empty => Ok(()),
                Line::Comment { text } => Ok(()),
                Line::Invalid { report } => Err(LoadFailure::Syntax(report.clone())),
                Line::Section { name } => {
                    if same_text(name.as_str(), "core") {
                        if core_seen {
                            Err(LoadFailure::DuplicateField(name.clone()))
                        } else {
                            place = Place::Core;
                            core_seen = true;
                            Ok(())
                        }
                    } else if same_text(name.as_str(), "compute") {
                        if compute_seen {
                            Err(LoadFailure::DuplicateField(name.clone()))
                        } else {
                            place = Place::Compute;
                            compute_seen = true;
                            Ok(())
                        }
                    } else {
                        place = Place::Elsewhere;
                        Ok(())
                    }
                },
                Line::Value { key, value } => match place {
                    Place::Top => {
                        if same_text(key.as_str(), "core") || same_text(key.as_str(), "compute") {
                            Err(LoadFailure::NotASection(key.clone()))
                        } else {
                            Ok(())
                        }
                    },
                    Place::Core => {
                        if same_text(key.as_str(), "project") {
                            assign(key.as_str(), &mut project, value.as_str())
                        } else if same_text(key.as_str(), "account") {
                            assign(key.as_str(), &mut account, value.as_str())
                        } else {
                            Ok(())
                        }
                    },
                    Place::Compute => {
                        if same_text(key.as_str(), "zone") {
                            assign(key.as_str(), &mut zone, value.as_str())
                        } else if same_text(key.as_str(), "region") {
                            assign(key.as_str(), &mut region, value.as_str())
                        } else {
                            Ok(())
                        }
                    },
                    Place::Elsewhere => Ok(()),
                },
            };
            match outcome {
                Ok(_) => {},
                Err(failure) => {
                    proof {
                        lemma_failure_stays(nothing_read(), all, i + 1);
                    }
                    return Err(Error::LoadingProperties(failure));
                },
            }
            i += 1;
        }
        assert(line_models(lines@).take(i as int) == line_models(lines@));
        let core = if core_seen {
            Some(CoreProperties { project, account })
        } else {
            None
        };
        let compute = if compute_seen {
            Some(
                ComputeProperties {
                    zone: match zone {
                        Some(text) => Some(Zone::verbatim(text)),
                        None => None,
                    },
                    region: match region {
                        Some(text) => Some(Region::verbatim(text)),
                        None => None,
                    },
                },
            )
        } else {
            None
        };
        Ok(Properties { core, compute })
    }

    /// The properties that `text` holds, read line by line.
    pub fn from_reader(text: &str) -> (result: Result<Properties, Error>)
        ensures
            read_as(result, decoded(ini_lines(text@))),
    {
        let lines = parse_lines(text);
        Properties::from_lines(&lines)
    }

    /// Whether the text of the properties is read as the lines that were
    /// written. It is not where a value has white space at its ends or a
    /// line break in it. Where it is, and every block that is there has a
    /// setting, reading the text gives the properties back.
    pub fn reads_back_as_written(&self) -> (same: bool)
        ensures
            same == (ini_lines(encoded(self@)) == property_lines(self@)),
            same && settled(self@) ==> decoded(ini_lines(encoded(self@))) == Ok::<
                PropertiesModel,
                LoadFailureModel,
            >(self@),
    {
        let text = self.to_writer();
        let read = parse_lines(text.as_str());
        let written = self.lines();
        let same = same_lines(&read, &written);
        proof {
            if same && settled(self@) {
                lemma_text_read_back(self@);
            }
        }
        same
    }

    /// The lines that stand for the properties: for each block that has a
    /// setting, its header and one line for each setting that is there.
    pub fn lines(&self) -> (lines: Vec<Line>)
        ensures
            line_models(lines@) == property_lines(self@),
    {
        let mut lines: Vec<Line> = Vec::new();
        assert(line_models(lines@) =~= Seq::<LineModel>::empty());
        match &self.core {
            Some(block) => {
                if block.project.is_some() || block.account.is_some() {
                    push_section(&mut lines, "core");
                    push_setting(&mut lines, "project", text_in(&block.project));
                    push_setting(&mut lines, "account", text_in(&block.account));
                }
            },
            None => {},
        }
        assert(line_models(lines@) =~= core_lines(self@.core));
        match &self.compute {
            Some(block) => {
                if block.zone.is_some() || block.region.is_some() {
                    push_section(&mut lines, "compute");
                    push_setting(&mut lines, "zone", zone_in(&block.zone));
                    push_setting(&mut lines, "region", region_in(&block.region));
                }
            },
            None => {},
        }
        assert(line_models(lines@) =~= core_lines(self@.core) + compute_lines(self@.compute));
        lines
    }

    /// The properties as text: `[core]`, then `[compute]`, each with one
    /// `key=value` line for each setting that is there, every line ended by
    /// a linefeed. A block without a setting leaves no trace.
    pub fn to_writer(&self) -> (text: String)
        ensures
            text@ == encoded(self@),
    {
        let lines = self.lines();
        write_lines(&lines)
    }
}

/// Whether every block of `properties` that is there has a setting. The
/// properties that a builder gives are of this kind.
pub open spec fn settled(properties: PropertiesModel) -> bool {
    &&& properties.core matches Some(block) ==> block.project is Some || block.account is Some
    &&& properties.compute matches Some(block) ==> block.zone is Some || block.region is Some
}

/// In the properties that a builder gives, every block that is there has a
/// setting.
pub proof fn lemma_built_is_settled(given: BuilderModel)
    ensures
        settled(built(given)),
{
}

/// Reading two runs of lines one after the other is reading the second
/// from where the first ended.
pub proof fn lemma_read_concat(start: Reading, first: Seq<LineModel>, second: Seq<LineModel>)
    ensures
        read(start, first + second) == match read(start, first) {
            Ok(reading) => read(reading, second),
            Err(failure) => Err(failure),
        },
    decreases second.len(),
{
    if second.len() == 0 {
        assert(first + second == first);
    } else {
        assert((first + second).drop_last() == first + second.drop_last());
        assert((first + second).last() == second.last());
        lemma_read_concat(start, first, second.drop_last());
    }
}

/// Reading the line of a setting sets it, and reads nothing where the
/// setting is absent.
pub proof fn lemma_read_setting(start: Reading, key: Seq<char>, value: Option<Seq<char>>)
    ensures
        read(start, setting_lines(key, value)) == match value {
            Some(text) => read_value(start, key, text),
            None => Ok(start),
        },
{
    reveal_with_fuel(read, 2);
    if let Some(text) = value {
        assert(seq![LineModel::Value { key, value: text }].drop_last() == Seq::<
            LineModel,
        >::empty());
    }
}

/// Reading a header and the lines of two settings.
pub proof fn lemma_read_block(
    start: Reading,
    name: Seq<char>,
    first_key: Seq<char>,
    first: Option<Seq<char>>,
    second_key: Seq<char>,
    second: Option<Seq<char>>,
)
    requires
        first is Some || second is Some,
    ensures
        read(start, block_lines(name, first_key, first, second_key, second)) == match read_section(
            start,
            name,
        ) {
            Ok(under) => match read(under, setting_lines(first_key, first)) {
                Ok(reading) => read(reading, setting_lines(second_key, second)),
                Err(failure) => Err(failure),
            },
            Err(failure) => Err(failure),
        },
{
    let header = seq![LineModel::Section { name }];
    reveal_with_fuel(read, 2);
    assert(header.drop_last() == Seq::<LineModel>::empty());
    lemma_read_concat(start, header, setting_lines(first_key, first));
    lemma_read_concat(
        start,
        header + setting_lines(first_key, first),
        setting_lines(second_key, second),
    );
}

/// The names of the known sections and keys differ from one another.
pub proof fn lemma_known_names()
    ensures
        "core"@ != "compute"@,
        "project"@ != "account"@,
        "zone"@ != "region"@,
{
    reveal_strlit("core");
    reveal_strlit("compute");
    reveal_strlit("project");
    reveal_strlit("account");
    reveal_strlit("zone");
    reveal_strlit("region");
    assert("core"@.len() != "compute"@.len());
    assert("project"@[0] != "account"@[0]);
    assert("zone"@.len() != "region"@.len());
}

/// Reading the lines of properties gives the properties back, for all
/// properties whose blocks each have a setting: the lines of other
/// properties leave out the blocks without one.
pub proof fn lemma_lines_read_back(properties: PropertiesModel)
    requires
        settled(properties),
    ensures
        decoded(property_lines(properties)) == Ok::<PropertiesModel, LoadFailureModel>(properties),
{
    lemma_known_names();
    let start = nothing_read();
    lemma_read_concat(start, core_lines(properties.core), compute_lines(properties.compute));
    let middle = match properties.core {
        Some(block) => Reading {
            place: Place::Core,
            core_seen: true,
            project: block.project,
            account: block.account,
            ..start
        },
        None => start,
    };
    assert(read(start, core_lines(properties.core)) == Ok::<Reading, LoadFailureModel>(middle))
        by {
        if let Some(block) = properties.core {
            lemma_read_block(
                start,
                "core"@,
                "project"@,
                block.project,
                "account"@,
                block.account,
            );
            let under = Reading { place: Place::Core, core_seen: true, ..start };
            lemma_read_setting(under, "project"@, block.project);
            lemma_read_setting(Reading { project: block.project, ..under }, "account"@, block.account);
        }
    }
    let end = match properties.compute {
        Some(block) => Reading {
            place: Place::Compute,
            compute_seen: true,
            zone: block.zone,
            region: block.region,
            ..middle
        },
        None => middle,
    };
    assert(read(middle, compute_lines(properties.compute)) == Ok::<Reading, LoadFailureModel>(end))
        by {
        if let Some(block) = properties.compute {
            lemma_read_block(middle, "compute"@, "zone"@, block.zone, "region"@, block.region);
            let under = Reading { place: Place::Compute, compute_seen: true, ..middle };
            lemma_read_setting(under, "zone"@, block.zone);
            lemma_read_setting(Reading { zone: block.zone, ..under }, "region"@, block.region);
        }
    }
    assert(finished(end) == properties);
}

/// Writing properties out and reading the text gives the properties back,
/// for all properties whose blocks each have a setting and whose text the
/// parser reads as the lines that were written.
pub proof fn lemma_text_read_back(properties: PropertiesModel)
    requires
        settled(properties),
        ini_lines(encoded(properties)) == property_lines(properties),
    ensures
        decoded(ini_lines(encoded(properties))) == Ok::<PropertiesModel, LoadFailureModel>(
            properties,
        ),
{
    lemma_lines_read_back(properties);
}

/// A failure met while reading the first `n` lines is the failure of
/// reading them all.
pub proof fn lemma_failure_stays(start: Reading, lines: Seq<LineModel>, n: int)
    requires
        0 <= n <= lines.len(),
        read(start, lines.take(n)) is Err,
    ensures
        read(start, lines) == read(start, lines.take(n)),
    decreases lines.len() - n,
{
    if n < lines.len() {
        assert(lines.take(n + 1).drop_last() == lines.take(n));
        lemma_failure_stays(start, lines, n + 1);
    } else {
        assert(lines.take(n) == lines);
    }
}

} // verus!
