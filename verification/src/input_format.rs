//! The input formats that the command line tool reads, and the choice of
//! one of them for a set of input files.

pub mod json;
pub mod ron;
pub mod toml;
pub mod yaml;

use vstd::prelude::*;
use vstd::string::*;
use crate::input_format::json::InputFormatJSON;
use crate::input_format::ron::InputFormatRON;
use crate::input_format::toml::InputFormatTOML;
use crate::input_format::yaml::InputFormatYAML;

verus! {

/// The texts of a list of string slices.
pub open spec fn slices(list: Seq<&'static str>) -> Seq<Seq<char>> {
    list.map_values(|s: &'static str| s@)
}

/// An input format from which data can be extracted into facts.
pub trait InputFormat {
    /// The name of the format.
    spec fn format_name(&self) -> Seq<char>;

    /// The file extensions of the format.
    spec fn extensions(&self) -> Seq<Seq<char>>;

    /// Whether every key of a map is a string in this format.
    spec fn string_keys(&self) -> bool;

    /// The name of the input format. This name can be given explicitly as
    /// the format of an input file.
    fn name(&self) -> (name: &'static str)
        ensures
            name@ == self.format_name(),
    ;

    /// The file extensions associated with the input format. They determine
    /// the format of an input file whose format is not given explicitly.
    fn file_extensions(&self) -> (extensions: Vec<&'static str>)
        ensures
            slices(extensions@) == self.extensions(),
    ;

    /// Whether every key of a map is a string in this format, so that map
    /// entries can be keyed by strings.
    fn has_string_keys(&self) -> (string_keys: bool)
        ensures
            string_keys == self.string_keys(),
    ;
}

/// One of the formats that the tool knows.
pub enum Format {
    JSON(InputFormatJSON),
    RON(InputFormatRON),
    TOML(InputFormatTOML),
    YAML(InputFormatYAML),
}

impl InputFormat for Format {
    open spec fn format_name(&self) -> Seq<char> {
        match *self {
            Format::JSON(format) => format.format_name(),
            Format::RON(format) => format.format_name(),
            Format::TOML(format) => format.format_name(),
            Format::YAML(format) => format.format_name(),
        }
    }

    open spec fn extensions(&self) -> Seq<Seq<char>> {
        match *self {
            Format::JSON(format) => format.extensions(),
            Format::RON(format) => format.extensions(),
            Format::TOML(format) => format.extensions(),
            Format::YAML(format) => format.extensions(),
        }
    }

    open spec fn string_keys(&self) -> bool {
        match *self {
            Format::JSON(format) => format.string_keys(),
            Format::RON(format) => format.string_keys(),
            Format::TOML(format) => format.string_keys(),
            Format::YAML(format) => format.string_keys(),
        }
    }

    fn name(&self) -> (name: &'static str) {
        match self {
            Format::JSON(format) => format.name(),
            Format::RON(format) => format.name(),
            Format::TOML(format) => format.name(),
            Format::YAML(format) => format.name(),
        }
    }

    fn file_extensions(&self) -> (extensions: Vec<&'static str>) {
        match self {
            Format::JSON(format) => format.file_extensions(),
            Format::RON(format) => format.file_extensions(),
            Format::TOML(format) => format.file_extensions(),
            Format::YAML(format) => format.file_extensions(),
        }
    }

    fn has_string_keys(&self) -> (string_keys: bool) {
        match self {
            Format::JSON(format) => format.has_string_keys(),
            Format::RON(format) => format.has_string_keys(),
            Format::TOML(format) => format.has_string_keys(),
            Format::YAML(format) => format.has_string_keys(),
        }
    }
}

/// The formats that the tool knows, in the order in which they are tried.
pub fn get_input_formats() -> (formats: Vec<Format>)
    ensures
        formats@ == seq![
            Format::JSON(InputFormatJSON),
            Format::RON(InputFormatRON),
            Format::TOML(InputFormatTOML),
            Format::YAML(InputFormatYAML),
        ],
{
    let mut formats: Vec<Format> = Vec::new();
    formats.push(Format::JSON(InputFormatJSON));
    formats.push(Format::RON(InputFormatRON));
    formats.push(Format::TOML(InputFormatTOML));
    formats.push(Format::YAML(InputFormatYAML));
    formats
}

/// Whether two string slices hold the same text.
pub fn same_text(a: &str, b: &str) -> (same: bool)
    ensures
        same == (a@ == b@),
{
    a.to_owned() == b.to_owned()
}

/// The message for a format name that no format has.
pub open spec fn unknown_format(name: Seq<char>) -> Seq<char> {
    "Unknown input format "@ + name
}

/// The message for a file extension that no format has.
pub open spec fn unknown_extension(extension: Seq<char>) -> Seq<char> {
    "Unknown file extension "@ + extension
}

/// The message for input files with two different extensions.
pub open spec fn ambiguous_extensions(first: Seq<char>, second: Seq<char>) -> Seq<char> {
    "Input format must be unique; found extensions "@ + first + " and "@ + second
        + " for different formats"@
}

/// Whether `found` is the outcome of the search for the format named
/// `name`: the position of the first of `formats` with that name, or the
/// message that there is none.
pub open spec fn found_by_name(
    formats: Seq<Format>,
    name: Seq<char>,
    found: Result<usize, String>,
) -> bool {
    match found {
        Ok(at) => {
            &&& at < formats.len()
            &&& formats[at as int].format_name() == name
            &&& forall|i: int| 0 <= i < at ==> (#[trigger] formats[i]).format_name() != name
        },
        Err(message) => {
            &&& message@ == unknown_format(name)
            &&& forall|i: int|
                0 <= i < formats.len() ==> (#[trigger] formats[i]).format_name() != name
        },
    }
}

/// Whether `found` is the outcome of the search for the format of the file
/// extension `extension`: the position of the first of `formats` that has
/// the extension, or the message that there is none.
pub open spec fn found_by_extension(
    formats: Seq<Format>,
    extension: Seq<char>,
    found: Result<usize, String>,
) -> bool {
    match found {
        Ok(at) => {
            &&& at < formats.len()
            &&& formats[at as int].extensions().contains(extension)
            &&& forall|i: int|
                0 <= i < at ==> !(#[trigger] formats[i]).extensions().contains(extension)
        },
        Err(message) => {
            &&& message@ == unknown_extension(extension)
            &&& forall|i: int|
                0 <= i < formats.len() ==> !(#[trigger] formats[i]).extensions().contains(
                    extension,
                )
        },
    }
}

/// The position of the first of `formats` with the name `name`, or the
/// message that there is none.
pub fn find_by_name(formats: &Vec<Format>, name: &str) -> (found: Result<usize, String>)
    ensures
        found_by_name(formats@, name@, found),
{
    let mut i: usize = 0;
    while i < formats.len()
        invariant
            i <= formats.len(),
            forall|j: int| 0 <= j < i ==> (#[trigger] formats@[j]).format_name() != name@,
        decreases formats.len() - i,
    {
        if same_text(formats[i].name(), name) {
            return Ok(i);
        }
        i = i + 1;
    }
    let mut message = String::from_str("Unknown input format ");
    message.append(name);
    Err(message)
}

/// Whether `extension` is among `extensions`.
fn has_extension(extensions: &Vec<&'static str>, extension: &str) -> (found: bool)
    ensures
        found == slices(extensions@).contains(extension@),
{
    let mut i: usize = 0;
    while i < extensions.len()
        invariant
            i <= extensions.len(),
            forall|j: int| 0 <= j < i ==> slices(extensions@)[j] != extension@,
        decreases extensions.len() - i,
    {
        if same_text(extensions[i], extension) {
            assert(slices(extensions@)[i as int] == extension@);
            return true;
        }
        i = i + 1;
    }
    false
}

/// The position of the first of `formats` that has the file extension
/// `extension`, or the message that there is none.
pub fn find_by_extension(formats: &Vec<Format>, extension: &str) -> (found: Result<
    usize,
    String,
>)
    ensures
        found_by_extension(formats@, extension@, found),
{
    let mut i: usize = 0;
    while i < formats.len()
        invariant
            i <= formats.len(),
            forall|j: int|
                0 <= j < i ==> !(#[trigger] formats@[j]).extensions().contains(extension@),
        decreases formats.len() - i,
    {
        let extensions = formats[i].file_extensions();
        if has_extension(&extensions, extension) {
            return Ok(i);
        }
        i = i + 1;
    }
    let mut message = String::from_str("Unknown file extension ");
    message.append(extension);
    Err(message)
}

/// The extensions of the files, each as a sequence of characters; `None`
/// for a file without one.
pub open spec fn extension_texts(extensions: Seq<Option<String>>) -> Seq<Option<Seq<char>>> {
    extensions.map_values(
        |extension: Option<String>|
            match extension {
                Some(text) => Some(text@),
                None => None,
            },
    )
}

/// The extension that the files from position `from` on share with
/// `current`, the extension of the files before them: a file without an
/// extension, or with another extension than the files before it, is an
/// error, and so is it to have no file at all.
pub open spec fn shared_extension(
    extensions: Seq<Option<Seq<char>>>,
    from: nat,
    current: Option<Seq<char>>,
) -> Result<Seq<char>, Seq<char>>
    decreases extensions.len() - from,
{
    if from >= extensions.len() {
        match current {
            Some(extension) => Ok(extension),
            None => Err("Unknown or missing file extension"@),
        }
    } else {
        match extensions[from as int] {
            None => Err("Missing file extension"@),
            Some(extension) => match current {
                Some(shared) => if shared != extension {
                    Err(ambiguous_extensions(shared, extension))
                } else {
                    shared_extension(extensions, from + 1, current)
                },
                None => shared_extension(extensions, from + 1, Some(extension)),
            },
        }
    }
}

/// The text of a result whose two sides are strings.
pub open spec fn text_result(r: Result<String, String>) -> Result<Seq<char>, Seq<char>> {
    match r {
        Ok(text) => Ok(text@),
        Err(text) => Err(text@),
    }
}

/// The one file extension that all input files have, given the extension
/// of each file, or the message that says why there is none.
pub fn common_extension(extensions: &Vec<Option<String>>) -> (shared: Result<String, String>)
    ensures
        text_result(shared) == shared_extension(extension_texts(extensions@), 0, None),
{
    let ghost texts = extension_texts(extensions@);
    let mut current: Option<String> = None;
    let mut i: usize = 0;
    while i < extensions.len()
        invariant
            i <= extensions.len(),
            texts == extension_texts(extensions@),
            shared_extension(texts, 0, None) == shared_extension(
                texts,
                i as nat,
                match current {
                    Some(text) => Some(text@),
                    None => None,
                },
            ),
        decreases extensions.len() - i,
    {
        assert(texts[i as int] == match extensions@[i as int] {
            Some(text) => Some(text@),
            None => None,
        });
        match &extensions[i] {
            None => {
                return Err(String::from_str("Missing file extension"));
            },
            Some(extension) => {
                let differs = match &current {
                    Some(shared) => !same_text(shared.as_str(), extension.as_str()),
                    None => false,
                };
                if differs {
                    let mut message = String::from_str(
                        "Input format must be unique; found extensions ",
                    );
                    message.append(current.unwrap().as_str());
                    message.append(" and ");
                    message.append(extension.as_str());
                    message.append(" for different formats");
                    return Err(message);
                }
                if current.is_none() {
                    current = Some(extension.clone());
                }
            },
        }
        i = i + 1;
    }
    match current {
        Some(extension) => Ok(extension),
        None => Err(String::from_str("Unknown or missing file extension")),
    }
}

/// The position among `formats` of the format of the input files: the
/// format named `name` where a name is given, else the format that has the
/// one extension of all the files. The error says why no format was found.
pub fn select_format(
    formats: &Vec<Format>,
    name: Option<&str>,
    extensions: &Vec<Option<String>>,
) -> (selected: Result<usize, String>)
    ensures
        match name {
            Some(name) => found_by_name(formats@, name@, selected),
            None => match shared_extension(extension_texts(extensions@), 0, None) {
                Ok(extension) => found_by_extension(formats@, extension, selected),
                Err(reason) => selected matches Err(message) && message@ == reason,
            },
        },
{
    match name {
        Some(name) => find_by_name(formats, name),
        None => match common_extension(extensions) {
            Ok(extension) => find_by_extension(formats, extension.as_str()),
            Err(message) => Err(message),
        },
    }
}

/// The line that describes one format in the list of supported formats:
/// its name and its extensions, each with a dot before it.
pub open spec fn format_line(name: Seq<char>, extensions: Seq<Seq<char>>) -> Seq<char> {
    "- "@ + name + " (extensions: "@ + dotted(extensions, extensions.len()) + ")"@
}

/// The first `n` of `extensions`, each with a dot before it, with a comma
/// and a blank between two of them.
pub open spec fn dotted(extensions: Seq<Seq<char>>, n: nat) -> Seq<char>
    decreases n,
{
    if n == 0 || n > extensions.len() {
        Seq::empty()
    } else if n == 1 {
        "."@ + extensions[0]
    } else {
        dotted(extensions, (n - 1) as nat) + ", "@ + "."@ + extensions[n - 1]
    }
}

/// The line that describes `format` in the list of supported formats.
pub fn describe_format(format: &Format) -> (line: String)
    ensures
        line@ == format_line(format.format_name(), format.extensions()),
{
    let extensions = format.file_extensions();
    let mut line = String::from_str("- ");
    line.append(format.name());
    line.append(" (extensions: ");
    let ghost head = line@;
    let mut i: usize = 0;
    while i < extensions.len()
        invariant
            i <= extensions.len(),
            slices(extensions@) == format.extensions(),
            line@ == head + dotted(format.extensions(), i as nat),
        decreases extensions.len() - i,
    {
        if i > 0 {
            line.append(", ");
        }
        line.append(".");
        line.append(extensions[i]);
        proof {
            assert(slices(extensions@)[i as int] == extensions@[i as int]@);
            let all = format.extensions();
            if i == 0 {
                assert(line@ =~= head + ("."@ + all[0]));
            } else {
                assert(line@ =~= head + (dotted(all, i as nat) + ", "@ + "."@ + all[i as int]));
            }
        }
        i = i + 1;
    }
    line.append(")");
    assert(line@ =~= format_line(format.format_name(), format.extensions()));
    line
}

/// The list of supported formats as lines of text: a heading, then one
/// line for each format.
pub fn print_formats(formats: &Vec<Format>) -> (lines: Vec<String>)
    ensures
        lines@.len() == formats@.len() + 1,
        lines@[0]@ == "Supported input formats:"@,
        forall|i: int|
            0 <= i < formats@.len() ==> (#[trigger] lines@[i + 1])@ == format_line(
                formats@[i].format_name(),
                formats@[i].extensions(),
            ),
{
    let mut lines: Vec<String> = Vec::new();
    lines.push(String::from_str("Supported input formats:"));
    let mut i: usize = 0;
    while i < formats.len()
        invariant
            i <= formats.len(),
            lines@.len() == i + 1,
            lines@[0]@ == "Supported input formats:"@,
            forall|j: int|
                0 <= j < i ==> (#[trigger] lines@[j + 1])@ == format_line(
                    formats@[j].format_name(),
                    formats@[j].extensions(),
                ),
        decreases formats.len() - i,
    {
        lines.push(describe_format(&formats[i]));
        i = i + 1;
    }
    lines
}

} // verus!
