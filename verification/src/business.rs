//! Tag resolution: from the environment and the version identifier of a
//! build to the ordered list of tags that its image gets.

use crate::config::{Tag, TagView, VersionView};
use crate::text::{decimal, decimal_string, lemma_decimal_is_digits, push_decimal, text_of};
use vstd::prelude::*;

verus! {

/// The name of the tag that always follows the newest build.
pub open spec fn latest() -> Seq<char> {
    seq!['l', 'a', 't', 'e', 's', 't']
}

/// The word that marks the build which is live in an environment.
pub open spec fn active() -> Seq<char> {
    seq!['a', 'c', 't', 'i', 'v', 'e']
}

/// `environment`, a hyphen, and `rest`.
pub open spec fn scoped(environment: Seq<char>, rest: Seq<char>) -> Seq<char> {
    environment + seq!['-'] + rest
}

/// `major.minor` of a version.
pub open spec fn minor_line(version: VersionView) -> Seq<char> {
    decimal(version.major as nat) + seq!['.'] + decimal(version.minor as nat)
}

/// `major` of a version.
pub open spec fn major_line(version: VersionView) -> Seq<char> {
    decimal(version.major as nat)
}

/// The tag that pins this very build in its environment. It is never
/// overwritten. Without an environment there is none.
pub open spec fn pinned_tags(environment: Option<Seq<char>>, identifier: Seq<char>) -> Seq<
    (Seq<char>, bool),
> {
    match environment {
        Some(name) => seq![(scoped(name, identifier), false)],
        None => Seq::empty(),
    }
}

/// The tags that come from the version identifier: the pinned tag, in
/// which a semantic version stands as `major.minor.patch`, and for a
/// semantic version the two floating tags `major.minor` and `major`.
pub open spec fn version_tags(environment: Option<Seq<char>>, tag: TagView) -> Seq<
    (Seq<char>, bool),
> {
    match tag {
        TagView::Commit(hash) => pinned_tags(environment, hash),
        TagView::SemVer(version) => pinned_tags(environment, version.triple()) + seq![
            (minor_line(version), true),
            (major_line(version), true),
        ],
    }
}

/// The floating tag of the environment. Without an environment there is
/// none.
pub open spec fn active_tags(environment: Option<Seq<char>>) -> Seq<(Seq<char>, bool)> {
    match environment {
        Some(name) => seq![(scoped(name, active()), true)],
        None => Seq::empty(),
    }
}

/// The tags of a build, in order, each with the mark that says whether it
/// may be moved (`true`) or must stay where it is (`false`): the tags of the
/// version identifier, the environment's floating tag, and `latest`.
pub open spec fn tags_of(environment: Option<Seq<char>>, tag: TagView) -> Seq<(Seq<char>, bool)> {
    version_tags(environment, tag) + active_tags(environment) + seq![(latest(), true)]
}

/// The mathematical value of a list of tags.
pub open spec fn tag_list(tags: Seq<(String, bool)>) -> Seq<(Seq<char>, bool)> {
    tags.map_values(|tag: (String, bool)| (tag.0@, tag.1))
}

fn scoped_name(environment: &String, rest: &str) -> (r: String)
    ensures
        r@ == scoped(environment@, rest@),
{
    let mut name = environment.clone();
    proof {
        reveal_strlit("-");
    }
    name.append("-");
    name.append(rest);
    name
}

/// Creates the list of tags of a build.
pub fn get_tags(env: &Option<String>, tag: &Tag) -> (tags: Vec<(String, bool)>)
    ensures
        tag_list(tags@) == tags_of(text_of(*env), tag@),
{
    let mut tags: Vec<(String, bool)> = Vec::new();
    proof {
        reveal_strlit(".");
        reveal_strlit("active");
        reveal_strlit("latest");
        assert("."@ =~= seq!['.']);
        assert("active"@ =~= active());
        assert("latest"@ =~= latest());
    }
    match tag {
        Tag::Commit(commit) => {
            match env {
                Some(name) => {
                    tags.push((scoped_name(name, commit.as_str()), false));
                },
                None => {},
            }
        },
        Tag::SemVer(version) => {
            match env {
                Some(name) => {
                    let numbers = version.triple();
                    tags.push((scoped_name(name, numbers.as_str()), false));
                },
                None => {},
            }
            let mut line = decimal_string(version.major);
            line.append(".");
            push_decimal(&mut line, version.minor);
            tags.push((line, true));
            tags.push((decimal_string(version.major), true));
        },
    }
    match env {
        Some(name) => {
            tags.push((scoped_name(name, "active"), true));
        },
        None => {},
    }
    tags.push(("latest".to_owned(), true));
    tags
}

/// Resolution is a function of its inputs: two calls on the same
/// environment and the same version identifier give the same tags in the
/// same order.
pub proof fn lemma_get_tags_is_a_function(
    env_a: Option<String>,
    tag_a: Tag,
    tags_a: Vec<(String, bool)>,
    env_b: Option<String>,
    tag_b: Tag,
    tags_b: Vec<(String, bool)>,
)
    requires
        call_ensures(get_tags, (&env_a, &tag_a), tags_a),
        call_ensures(get_tags, (&env_b, &tag_b), tags_b),
        text_of(env_a) == text_of(env_b),
        tag_a@ == tag_b@,
    ensures
        tag_list(tags_a@) == tag_list(tags_b@),
{
}

/// No two tags of a build have the same name, so that each request of a
/// publish is for a tag of its own.
pub proof fn lemma_tag_names_are_distinct(environment: Option<Seq<char>>, tag: TagView)
    requires
        tag.wf(),
    ensures
        forall|i: int, j: int|
            0 <= i < j < tags_of(environment, tag).len() ==> tags_of(environment, tag)[i].0
                != tags_of(environment, tag)[j].0,
{
    // A scoped name holds a hyphen behind the environment; a numeral holds
    // digits only, and `latest` holds letters only.
    assert(!latest().contains('-'));
    if environment is Some {
        let name = environment->0;
        assert(scoped(name, active())[name.len() as int] == '-');
        assert(scoped(name, active())[name.len() as int + 1] == 'a');
    }
    match tag {
        TagView::Commit(hash) => {
            if environment is Some {
                let name = environment->0;
                assert(scoped(name, hash)[name.len() as int] == '-');
                // Forty digits are not the word `active`.
                assert(scoped(name, hash).len() != scoped(name, active()).len());
            }
        },
        TagView::SemVer(version) => {
            let major = decimal(version.major as nat);
            let line = minor_line(version);
            lemma_decimal_is_digits(version.major as nat);
            lemma_decimal_is_digits(version.minor as nat);
            assert(!major.contains('.'));
            assert(!major.contains('-'));
            assert(!line.contains('-')) by {
                if line.contains('-') {
                    let i = choose|i: int| 0 <= i < line.len() && line[i] == '-';
                    assert(i != major.len());
                }
            }
            if environment is Some {
                let name = environment->0;
                // A version starts with a digit, `active` with a letter.
                assert(scoped(name, version.triple())[name.len() as int] == '-');
                assert(scoped(name, version.triple())[name.len() as int + 1] == major[0]);
            }
        },
    }
}

} // verus!
