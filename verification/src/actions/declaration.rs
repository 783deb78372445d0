//! Declarations: how an action is written down, and the registry of tags
//! that says which kind of action a declaration stands for.

use crate::actions::directory::copy::DirectoryCopy;
use crate::actions::directory::copy::DirectoryCopyView;
use crate::actions::package::copy_strings;
use crate::actions::package::PackageInstall;
use crate::actions::package::PackageVariant;
use crate::actions::package::PackageVariantView;
use crate::actions::Actions;
use crate::actions::ActionsView;
use vstd::prelude::*;

verus! {

/// The kinds of action, each with the tag that declares it.
#[derive(Clone, Copy, Debug, PartialEq, Eq, Structural)]
pub enum Kind {
    DirectoryCopy,
    PackageInstall,
}

impl Kind {
    /// The tag that declares an action of this kind.
    pub open spec fn label(self) -> Seq<char> {
        match self {
            Kind::DirectoryCopy => "directory.copy"@,
            Kind::PackageInstall => "package.install"@,
        }
    }

    /// The kind that `tag` declares, if any.
    pub open spec fn tagged(tag: Seq<char>) -> Option<Kind> {
        if tag == Kind::DirectoryCopy.label() {
            Some(Kind::DirectoryCopy)
        } else if tag == Kind::PackageInstall.label() {
            Some(Kind::PackageInstall)
        } else {
            None
        }
    }

    /// The tag that declares an action of this kind.
    pub fn tag(self) -> (tag: &'static str)
        ensures
            tag@ == self.label(),
    {
        match self {
            Kind::DirectoryCopy => "directory.copy",
            Kind::PackageInstall => "package.install",
        }
    }

    /// The kind that `tag` declares, or `None` for a tag that declares
    /// nothing.
    pub fn from_tag(tag: &str) -> (kind: Option<Kind>)
        ensures
            kind == Self::tagged(tag@),
    {
        if same(tag, Kind::DirectoryCopy.tag()) {
            Some(Kind::DirectoryCopy)
        } else if same(tag, Kind::PackageInstall.tag()) {
            Some(Kind::PackageInstall)
        } else {
            None
        }
    }
}

/// Each kind is found again by its own tag, and a tag that is found is the
/// tag of the kind it finds.
pub proof fn lemma_tags_round_trip(kind: Kind, tag: Seq<char>)
    ensures
        Kind::tagged(kind.label()) == Some(kind),
        Kind::tagged(tag) == Some(kind) ==> tag == kind.label(),
{
    reveal_strlit("directory.copy");
    reveal_strlit("package.install");
    assert("directory.copy"@.len() != "package.install"@.len());
}

/// Whether two texts are the same.
pub fn same(left: &str, right: &str) -> (same: bool)
    ensures
        same == (left@ == right@),
{
    String::from_str(left) == String::from_str(right)
}

/// The value of a field in the declaration of an action.
#[derive(Clone, Debug, PartialEq)]
pub enum Field {
    Text(String),
    List(Vec<String>),
}

/// The mathematical value of a [`Field`].
pub enum FieldView {
    Text(Seq<char>),
    List(Seq<Seq<char>>),
}

impl View for Field {
    type V = FieldView;

    open spec fn view(&self) -> FieldView {
        match self {
            Field::Text(text) => FieldView::Text(text@),
            Field::List(list) => FieldView::List(list.deep_view()),
        }
    }
}

impl DeepView for Field {
    type V = FieldView;

    open spec fn deep_view(&self) -> FieldView {
        self@
    }
}

/// Why a declaration is not an action.
#[derive(Clone, Debug, PartialEq)]
pub enum DeclarationError {
    /// The declaration has no text field `action`.
    MissingTag,
    /// The tag declares no kind of action.
    UnknownTag(String),
    /// The kind of action needs this field, and the declaration does not
    /// have it in the form needed.
    MissingField(String),
}

/// The mathematical value of a [`DeclarationError`].
pub enum DeclarationErrorView {
    MissingTag,
    UnknownTag(Seq<char>),
    MissingField(Seq<char>),
}

impl View for DeclarationError {
    type V = DeclarationErrorView;

    open spec fn view(&self) -> DeclarationErrorView {
        match self {
            DeclarationError::MissingTag => DeclarationErrorView::MissingTag,
            DeclarationError::UnknownTag(tag) => DeclarationErrorView::UnknownTag(tag@),
            DeclarationError::MissingField(key) => DeclarationErrorView::MissingField(key@),
        }
    }
}

/// The names of the fields, in their order.
pub open spec fn keys(fields: Seq<(Seq<char>, FieldView)>) -> Seq<Seq<char>> {
    fields.map_values(|entry: (Seq<char>, FieldView)| entry.0)
}

/// The value of the first field named `key`.
pub open spec fn field(fields: Seq<(Seq<char>, FieldView)>, key: Seq<char>) -> Option<FieldView> {
    match keys(fields).index_of_first(key) {
        Some(at) => Some(fields[at].1),
        None => None,
    }
}

/// The text of the first field named `key`, if that field is a text.
pub open spec fn text(fields: Seq<(Seq<char>, FieldView)>, key: Seq<char>) -> Option<Seq<char>> {
    match field(fields, key) {
        Some(FieldView::Text(text)) => Some(text),
        _ => None,
    }
}

/// The items of the first field named `key`, if that field is a list.
pub open spec fn list(fields: Seq<(Seq<char>, FieldView)>, key: Seq<char>) -> Option<
    Seq<Seq<char>>,
> {
    match field(fields, key) {
        Some(FieldView::List(list)) => Some(list),
        _ => None,
    }
}

/// The action that the fields of a declaration stand for.
///
/// The text field `action` holds the tag. A directory copy takes the text
/// fields `from` and `to`. A package install takes the list `packages`, and
/// may have a text `repository` and a list `extra_args`.
pub open spec fn declared(fields: Seq<(Seq<char>, FieldView)>) -> Result<
    ActionsView,
    DeclarationErrorView,
> {
    match text(fields, "action"@) {
        None => Err(DeclarationErrorView::MissingTag),
        Some(tag) => match Kind::tagged(tag) {
            None => Err(DeclarationErrorView::UnknownTag(tag)),
            Some(Kind::DirectoryCopy) => match (text(fields, "from"@), text(fields, "to"@)) {
                (Some(from), Some(to)) => Ok(
                    ActionsView::DirectoryCopy(DirectoryCopyView { from, to }),
                ),
                (None, _) => Err(DeclarationErrorView::MissingField("from"@)),
                (_, None) => Err(DeclarationErrorView::MissingField("to"@)),
            },
            Some(Kind::PackageInstall) => match list(fields, "packages"@) {
                None => Err(DeclarationErrorView::MissingField("packages"@)),
                Some(packages) => Ok(
                    ActionsView::PackageInstall(
                        PackageVariantView {
                            packages,
                            repository: text(fields, "repository"@),
                            extra_args: match list(fields, "extra_args"@) {
                                Some(extra) => extra,
                                None => Seq::empty(),
                            },
                        },
                    ),
                ),
            },
        },
    }
}

/// The first field named `key`.
fn find<'a>(fields: &'a Vec<(String, Field)>, key: &str) -> (found: Option<&'a Field>)
    ensures
        found.deep_view() == field(fields.deep_view(), key@),
{
    let ghost names = keys(fields.deep_view());
    let mut i: usize = 0;
    while i < fields.len()
        invariant
            i <= fields.len(),
            names == keys(fields.deep_view()),
            forall|j: int| 0 <= j < i ==> names[j] != key@,
        decreases fields.len() - i,
    {
        assert(names[i as int] == fields[i as int].0@);
        if same(fields[i].0.as_str(), key) {
            proof {
                names.index_of_first_ensures(key@);
                assert(names.contains(key@));
            }
            return Some(&fields[i].1);
        }
        i += 1;
    }
    proof {
        names.index_of_first_ensures(key@);
    }
    None
}

/// The text of the first field named `key`, if that field is a text.
fn find_text(fields: &Vec<(String, Field)>, key: &str) -> (found: Option<String>)
    ensures
        found.deep_view() == text(fields.deep_view(), key@),
{
    match find(fields, key) {
        Some(Field::Text(text)) => Some(text.clone()),
        _ => None,
    }
}

/// The items of the first field named `key`, if that field is a list.
fn find_list(fields: &Vec<(String, Field)>, key: &str) -> (found: Option<Vec<String>>)
    ensures
        found.deep_view() == list(fields.deep_view(), key@),
{
    match find(fields, key) {
        Some(Field::List(list)) => Some(copy_strings(list)),
        _ => None,
    }
}

impl Actions {
    /// Builds the action that the fields of a declaration stand for: see
    /// [`declared`].
    pub fn declare(fields: &Vec<(String, Field)>) -> (action: Result<Actions, DeclarationError>)
        ensures
            action is Ok <==> declared(fields.deep_view()) is Ok,
            action matches Ok(built) ==> built@ == declared(fields.deep_view())->Ok_0,
            action matches Err(error) ==> error@ == declared(fields.deep_view())->Err_0,
    {
        let tag = match find_text(fields, "action") {
            Some(tag) => tag,
            None => {
                return Err(DeclarationError::MissingTag);
            },
        };
        match Kind::from_tag(tag.as_str()) {
            None => Err(DeclarationError::UnknownTag(tag)),
            Some(Kind::DirectoryCopy) => {
                let from = find_text(fields, "from");
                let to = find_text(fields, "to");
                match (from, to) {
                    (Some(from), Some(to)) => Ok(
                        Actions::DirectoryCopy(DirectoryCopy { from, to }),
                    ),
                    (None, _) => Err(DeclarationError::MissingField(String::from_str("from"))),
                    (_, None) => Err(DeclarationError::MissingField(String::from_str("to"))),
                }
            },
            Some(Kind::PackageInstall) => {
                match find_list(fields, "packages") {
                    None => Err(DeclarationError::MissingField(String::from_str("packages"))),
                    Some(packages) => {
                        let repository = find_text(fields, "repository");
                        let extra_args = match find_list(fields, "extra_args") {
                            Some(extra) => extra,
                            None => Vec::new(),
                        };
                        let variant = PackageVariant { packages, repository, extra_args };
                        proof {
                            if list(fields.deep_view(), "extra_args"@) is None {
                                assert(variant@.extra_args =~= Seq::empty());
                            }
                        }
                        Ok(Actions::PackageInstall(PackageInstall { variant }))
                    },
                }
            },
        }
    }
}

} // verus!
