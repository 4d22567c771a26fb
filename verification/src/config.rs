//! Build identity: the application name, the optional deployment environment
//! and the version identifier, with the rules by which they are read from
//! plain strings.

use crate::text::{decimal, hyphenate, hyphenated, push_decimal, text_of};
use vstd::prelude::*;

verus! {

/// Whether `c` is a hexadecimal digit in lower case: one of `0-9` or `a-f`.
pub open spec fn is_hex_digit(c: char) -> bool {
    ('0' <= c && c <= '9') || ('a' <= c && c <= 'f')
}

/// Whether `s` is a full commit id: exactly 40 hexadecimal digits in lower
/// case.
pub open spec fn is_commit_id(s: Seq<char>) -> bool {
    s.len() == 40 && forall|i: int| 0 <= i < s.len() ==> is_hex_digit(#[trigger] s[i])
}

fn hex_digit(c: char) -> (r: bool)
    ensures
        r == is_hex_digit(c),
{
    ('0' <= c && c <= '9') || ('a' <= c && c <= 'f')
}

/// Tests whether a string is a full commit id.
pub fn commit_id(s: &str) -> (r: bool)
    ensures
        r == is_commit_id(s@),
{
    let n: usize = s.unicode_len();
    if n != 40 {
        return false;
    }
    let mut i: usize = 0;
    while i < n
        invariant
            n == s@.len(),
            i <= n,
            forall|j: int| 0 <= j < i ==> is_hex_digit(#[trigger] s@[j]),
        decreases n - i,
    {
        if !hex_digit(s.get_char(i)) {
            return false;
        }
        i += 1;
    }
    true
}

/// The prefix that release tags carry in front of their version.
pub open spec fn release_prefix() -> Seq<char> {
    seq!['r', 'e', 'l', 'e', 'a', 's', 'e', '-']
}

/// `s` without one leading `release-`; `s` itself where it has none.
pub open spec fn without_release_prefix(s: Seq<char>) -> Seq<char> {
    if release_prefix().is_prefix_of(s) {
        s.skip(8)
    } else {
        s
    }
}

/// Removes one leading `release-` from a string.
pub fn strip_release(s: &str) -> (r: &str)
    ensures
        r@ == without_release_prefix(s@),
{
    let prefix = "release-";
    proof {
        reveal_strlit("release-");
    }
    let n: usize = s.unicode_len();
    if n < 8 {
        return s;
    }
    let mut i: usize = 0;
    while i < 8
        invariant
            prefix@ == release_prefix(),
            n == s@.len(),
            8 <= n,
            i <= 8,
            forall|j: int| 0 <= j < i ==> s@[j] == #[trigger] release_prefix()[j],
        decreases 8 - i,
    {
        if s.get_char(i) != prefix.get_char(i) {
            return s;
        }
        i += 1;
    }
    s.substring_char(8, n)
}

/// A semantic version: three numbers, and the pre-release and build labels
/// that may follow them (each empty where the version has none).
#[derive(PartialEq, Eq, Debug)]
pub struct Version {
    pub major: u64,
    pub minor: u64,
    pub patch: u64,
    pub pre: String,
    pub build: String,
}

/// The mathematical value of a `Version`.
pub struct VersionView {
    pub major: u64,
    pub minor: u64,
    pub patch: u64,
    pub pre: Seq<char>,
    pub build: Seq<char>,
}

impl View for Version {
    type V = VersionView;

    open spec fn view(&self) -> VersionView {
        VersionView {
            major: self.major,
            minor: self.minor,
            patch: self.patch,
            pre: self.pre@,
            build: self.build@,
        }
    }
}

impl VersionView {
    /// The three numbers, joined by dots: the text by which a version is
    /// named in a tag.
    pub open spec fn triple(self) -> Seq<char> {
        decimal(self.major as nat) + seq!['.'] + decimal(self.minor as nat) + seq!['.'] + decimal(
            self.patch as nat,
        )
    }

    /// The pre-release label behind a hyphen, or nothing where it is empty.
    pub open spec fn pre_suffix(self) -> Seq<char> {
        if self.pre.len() > 0 {
            seq!['-'] + self.pre
        } else {
            Seq::empty()
        }
    }

    /// The build label behind a plus sign, or nothing where it is empty.
    pub open spec fn build_suffix(self) -> Seq<char> {
        if self.build.len() > 0 {
            seq!['+'] + self.build
        } else {
            Seq::empty()
        }
    }

    /// The version as text, in full: `major.minor.patch`, then the
    /// pre-release label behind a hyphen and the build label behind a plus
    /// sign, each only where the version has one.
    pub open spec fn rendered(self) -> Seq<char> {
        self.triple() + self.pre_suffix() + self.build_suffix()
    }
}

impl Version {
    /// The three numbers of the version, joined by dots. This is the text
    /// by which a version is named in a tag.
    pub fn triple(&self) -> (r: String)
        ensures
            r@ == self@.triple(),
    {
        let mut out = String::new();
        proof {
            reveal_strlit(".");
        }
        push_decimal(&mut out, self.major);
        out.append(".");
        push_decimal(&mut out, self.minor);
        out.append(".");
        push_decimal(&mut out, self.patch);
        out
    }

    /// The version as text, in full.
    pub fn to_string(&self) -> (r: String)
        ensures
            r@ == self@.rendered(),
            self@.pre.len() == 0 && self@.build.len() == 0 ==> r@ == self@.triple(),
    {
        let mut out = self.triple();
        proof {
            reveal_strlit("-");
            reveal_strlit("+");
        }
        if !self.pre.as_str().is_empty() {
            out.append("-");
            out.append(self.pre.as_str());
        }
        if !self.build.as_str().is_empty() {
            out.append("+");
            out.append(self.build.as_str());
        }
        out
    }

    /// The version `major.minor.patch` without pre-release or build label.
    pub fn new(major: u64, minor: u64, patch: u64) -> (r: Version)
        ensures
            r@ == (VersionView { major, minor, patch, pre: Seq::empty(), build: Seq::empty() }),
    {
        Version { major, minor, patch, pre: String::new(), build: String::new() }
    }
}

/// What `semver::Version::parse` returns for a text: the parsed version, or
/// `None` where it rejects the text.
pub uninterp spec fn semver_parse(text: Seq<char>) -> Option<VersionView>;

/// What every text that `semver` accepts has: a decimal digit in front (the
/// major number) and a dot somewhere behind it.
pub open spec fn has_version_shape(text: Seq<char>) -> bool {
    text.len() > 0 && '0' <= text[0] && text[0] <= '9' && text.contains('.')
}

/// The semantic version that a text denotes, if it denotes one.
pub open spec fn parsed_version(text: Seq<char>) -> Option<VersionView> {
    if has_version_shape(text) {
        semver_parse(text)
    } else {
        None
    }
}

/// Calls `semver::Version::parse` and copies the fields of the version it
/// returns. Trusted: the result is the crate's answer for this text, and the
/// crate accepts a text only if it starts with a decimal digit and holds a
/// dot. The crate returns an error on every other text; it does not panic.
#[verifier::external_body]
fn parse_semver(text: &str) -> (r: Option<Version>)
    ensures
        match r {
            Some(v) => semver_parse(text@) == Some(v@),
            None => semver_parse(text@) is None,
        },
        r is Some ==> has_version_shape(text@),
{
    match semver::Version::parse(text) {
        Ok(v) => Some(
            Version {
                major: v.major,
                minor: v.minor,
                patch: v.patch,
                pre: v.pre.as_str().to_owned(),
                build: v.build.as_str().to_owned(),
            },
        ),
        Err(_) => None,
    }
}

impl Version {
    /// Reads a semantic version from a text. The text is accepted exactly
    /// where `semver` accepts it, and the version is the one that `semver`
    /// returns.
    pub fn parse(text: &str) -> (r: Option<Version>)
        ensures
            match r {
                Some(version) => semver_parse(text@) == Some(version@) && parsed_version(text@)
                    == Some(version@),
                None => semver_parse(text@) is None && parsed_version(text@) is None,
            },
    {
        parse_semver(text)
    }
}

/// The version identifier of a build: a commit id or a semantic version.
#[derive(PartialEq, Eq, Debug)]
pub enum Tag {
    Commit(String),
    SemVer(Version),
}

/// The mathematical value of a `Tag`.
pub enum TagView {
    Commit(Seq<char>),
    SemVer(VersionView),
}

impl View for Tag {
    type V = TagView;

    open spec fn view(&self) -> TagView {
        match self {
            Tag::Commit(hash) => TagView::Commit(hash@),
            Tag::SemVer(version) => TagView::SemVer(version@),
        }
    }
}

impl TagView {
    /// A commit id is made of exactly 40 hexadecimal digits in lower case.
    pub open spec fn wf(self) -> bool {
        self matches TagView::Commit(hash) ==> is_commit_id(hash)
    }
}

/// The version identifier that a text denotes: forty hexadecimal digits in
/// lower case are always a commit id; any other text is read as a semantic
/// version, after one leading `release-` is taken off; what is neither
/// denotes nothing.
pub open spec fn parsed_tag(text: Seq<char>) -> Option<TagView> {
    if is_commit_id(text) {
        Some(TagView::Commit(text))
    } else {
        match parsed_version(without_release_prefix(text)) {
            Some(version) => Some(TagView::SemVer(version)),
            None => None,
        }
    }
}

/// Forty hexadecimal digits in lower case always denote the commit with
/// that id, whatever else the text might be read as.
pub proof fn lemma_commit_id_denotes_commit(text: Seq<char>)
    requires
        text.len() == 40,
        forall|i: int| 0 <= i < 40 ==> is_hex_digit(#[trigger] text[i]),
    ensures
        parsed_tag(text) == Some(TagView::Commit(text)),
        parsed_tag(text)->0.wf(),
{
}

/// A text that denotes a semantic version denotes the same version behind
/// the prefix `release-`, and in both forms it is read as that version.
pub proof fn lemma_release_prefix_is_dropped(text: Seq<char>)
    requires
        parsed_version(text) is Some,
    ensures
        parsed_tag(text) == Some(TagView::SemVer(parsed_version(text)->0)),
        parsed_tag(release_prefix() + text) == parsed_tag(text),
{
    // A version starts with a digit and holds a dot: it is no commit id and
    // carries no prefix of its own. Behind the prefix the text starts with
    // an `r`: it is no commit id either.
    assert((release_prefix() + text).skip(8) =~= text);
}

/// A text that is accepted as a semantic version is read as that version,
/// and so it is behind the prefix `release-`.
pub proof fn lemma_accepted_text_reads_alike(text: &str, version: Version)
    requires
        call_ensures(Version::parse, (text,), Some(version)),
    ensures
        parsed_tag(text@) == Some(TagView::SemVer(version@)),
        parsed_tag(release_prefix() + text@) == Some(TagView::SemVer(version@)),
{
    lemma_release_prefix_is_dropped(text@);
}

/// A text denotes nothing if it is no commit id, no semantic version, and
/// no semantic version behind the prefix `release-`.
pub proof fn lemma_other_text_denotes_nothing(text: Seq<char>)
    requires
        !is_commit_id(text),
        parsed_version(text) is None,
        forall|rest: Seq<char>| text == release_prefix() + rest ==> parsed_version(rest) is None,
    ensures
        parsed_tag(text) is None,
{
    if release_prefix().is_prefix_of(text) {
        assert(text =~= release_prefix() + text.skip(8));
    }
}

impl Tag {
    /// Whether this identifier keeps the invariant of its kind.
    pub open spec fn wf(&self) -> bool {
        self@.wf()
    }

    /// The identifier for a text that is no commit id, given the semantic
    /// version that the text was found to denote, if any.
    pub fn from_version(version: Option<Version>) -> (r: Result<Tag, ()>)
        ensures
            match version {
                Some(version) => r == Ok::<Tag, ()>(Tag::SemVer(version)),
                None => r is Err,
            },
    {
        match version {
            Some(version) => Ok(Tag::SemVer(version)),
            None => Err(()),
        }
    }

    /// Reads a version identifier from a text.
    pub fn from_str(s: &str) -> (r: Result<Tag, ()>)
        ensures
            match parsed_tag(s@) {
                Some(tag) => r is Ok && r->Ok_0@ == tag && r->Ok_0.wf(),
                None => r is Err,
            },
    {
        if commit_id(s) {
            return Ok(Tag::Commit(s.to_owned()));
        }
        Tag::from_version(Version::parse(strip_release(s)))
    }
}

/// The identity of one build.
#[derive(PartialEq, Eq, Debug)]
pub struct Config {
    pub application: String,
    pub environment: Option<String>,
    pub tag: Tag,
}

/// The mathematical value of a `Config`.
pub struct ConfigView {
    pub application: Seq<char>,
    pub environment: Option<Seq<char>>,
    pub tag: TagView,
}

impl ConfigView {
    /// The application is named, an environment that is given is named too,
    /// and the version identifier is well formed.
    pub open spec fn wf(self) -> bool {
        &&& self.application.len() > 0
        &&& self.environment matches Some(name) ==> name.len() > 0
        &&& self.tag.wf()
    }
}

impl View for Config {
    type V = ConfigView;

    open spec fn view(&self) -> ConfigView {
        ConfigView {
            application: self.application@,
            environment: text_of(self.environment),
            tag: self.tag@,
        }
    }
}

/// Why a build identity could not be made.
#[derive(Clone, Copy, PartialEq, Eq, Debug)]
pub enum ConfigError {
    /// Neither an image name nor an application name was given.
    MissingApplication,
    /// Neither an image tag nor a commit was given.
    MissingVersion,
    /// The version text is neither a commit id nor a semantic version.
    InvalidVersion,
}

/// Whether a setting is given and not empty.
pub open spec fn present(value: Option<Seq<char>>) -> bool {
    value matches Some(s) && s.len() > 0
}

/// The application name: the image name as it stands where one is given,
/// else the application setting with hyphens for underscores.
pub open spec fn application_of(
    application: Option<Seq<char>>,
    image_name: Option<Seq<char>>,
) -> Option<Seq<char>> {
    if present(image_name) {
        image_name
    } else if present(application) {
        Some(hyphenate(application->0))
    } else {
        None
    }
}

/// The environment, where one is given and not empty.
pub open spec fn environment_of(environment: Option<Seq<char>>) -> Option<Seq<char>> {
    if present(environment) {
        environment
    } else {
        None
    }
}

/// The text that the version identifier is read from: the image tag where
/// one is given and not empty, else the commit.
pub open spec fn version_text(
    image_tag: Option<Seq<char>>,
    commit: Option<Seq<char>>,
) -> Option<Seq<char>> {
    if present(image_tag) {
        image_tag
    } else {
        commit
    }
}

/// The build identity that five settings denote, or the reason why they
/// denote none. A missing application is reported before a version fault.
pub open spec fn created(
    environment: Option<Seq<char>>,
    application: Option<Seq<char>>,
    image_name: Option<Seq<char>>,
    image_tag: Option<Seq<char>>,
    commit: Option<Seq<char>>,
) -> Result<ConfigView, ConfigError> {
    match application_of(application, image_name) {
        None => Err(ConfigError::MissingApplication),
        Some(name) => match version_text(image_tag, commit) {
            None => Err(ConfigError::MissingVersion),
            Some(text) => match parsed_tag(text) {
                None => Err(ConfigError::InvalidVersion),
                Some(tag) => Ok(
                    ConfigView { application: name, environment: environment_of(environment), tag },
                ),
            },
        },
    }
}

/// Tells whether a setting is given and not empty.
pub fn filled(value: &Option<String>) -> (r: bool)
    ensures
        r == present(text_of(*value)),
{
    match value {
        Some(s) => !s.as_str().is_empty(),
        None => false,
    }
}

/// Chooses the application name from the two settings that can give it.
pub fn application_name(application: Option<String>, image_name: Option<String>) -> (r: Option<
    String,
>)
    ensures
        text_of(r) == application_of(text_of(application), text_of(image_name)),
{
    if filled(&image_name) {
        image_name
    } else if filled(&application) {
        Some(hyphenated(application.unwrap().as_str()))
    } else {
        None
    }
}

/// Takes an empty environment for none.
pub fn environment_name(environment: Option<String>) -> (r: Option<String>)
    ensures
        text_of(r) == environment_of(text_of(environment)),
{
    if filled(&environment) {
        environment
    } else {
        None
    }
}

/// Chooses the text that holds the version identifier.
pub fn version_source(image_tag: Option<String>, commit: Option<String>) -> (r: Option<String>)
    ensures
        text_of(r) == version_text(text_of(image_tag), text_of(commit)),
{
    if filled(&image_tag) {
        image_tag
    } else {
        commit
    }
}

/// Where an image name is given, it is the application name as it stands.
/// Else the application setting is, with a hyphen wherever it has an
/// underscore and nothing else changed, so that no underscore is left.
pub proof fn lemma_only_the_fallback_is_hyphenated(
    application: Option<Seq<char>>,
    image_name: Option<Seq<char>>,
)
    ensures
        present(image_name) ==> application_of(application, image_name) == image_name,
        !present(image_name) && present(application) ==> ({
            let given = application->0;
            let name = application_of(application, image_name)->0;
            &&& application_of(application, image_name) is Some
            &&& name.len() == given.len()
            &&& !name.contains('_')
            &&& forall|i: int|
                0 <= i < given.len() ==> #[trigger] name[i] == if given[i] == '_' {
                    '-'
                } else {
                    given[i]
                }
        }),
        !present(image_name) && !present(application) ==> application_of(application, image_name)
            is None,
{
}

impl Config {
    /// Whether this identity keeps its invariant.
    pub open spec fn wf(&self) -> bool {
        self@.wf()
    }

    /// Makes the build identity from the five settings, each `None` where
    /// the setting is absent.
    pub fn create(
        environment: Option<String>,
        application: Option<String>,
        image_name: Option<String>,
        image_tag: Option<String>,
        commit: Option<String>,
    ) -> (r: Result<Config, ConfigError>)
        ensures
            match created(
                text_of(environment),
                text_of(application),
                text_of(image_name),
                text_of(image_tag),
                text_of(commit),
            ) {
                Ok(config) => r is Ok && r->Ok_0@ == config && r->Ok_0.wf(),
                Err(error) => r == Err::<Config, ConfigError>(error),
            },
    {
        let name = match application_name(application, image_name) {
            Some(name) => name,
            None => {
                return Err(ConfigError::MissingApplication);
            },
        };
        let environment = environment_name(environment);
        let tag = match version_source(image_tag, commit) {
            None => {
                return Err(ConfigError::MissingVersion);
            },
            Some(text) => match Tag::from_str(text.as_str()) {
                Err(_) => {
                    return Err(ConfigError::InvalidVersion);
                },
                Ok(tag) => tag,
            },
        };
        Ok(Config { application: name, environment, tag })
    }
}

} // verus!
