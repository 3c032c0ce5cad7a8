//! The manifest's JSON encoding: building the JSON tree of a manifest,
//! reading a manifest back out of a JSON tree, and the round trip between
//! the two.

use vstd::prelude::*;
use vstd::string::StringExecFns;
use crate::json::Json;
use crate::json::JsonV;
use crate::json::json_view;
use crate::json::json_views;
use crate::json::json_field_views;
use crate::json::lemma_json_views_props;
use crate::json::lemma_json_field_views_props;
use crate::json::lemma_field_views_snoc;
use crate::json::lemma_views_snoc;
use crate::json::parse_text;
use crate::json::spec_parse_text;
use crate::json::spec_print;
use crate::manifest::Author;
use crate::manifest::AuthorV;
use crate::manifest::ContentBundle;
use crate::manifest::ContentBundleV;
use crate::manifest::FiletypeAssociation;
use crate::manifest::FiletypeAssociationV;
use crate::manifest::PackageFile;
use crate::manifest::PackageFileV;
use crate::paths::InstallationPath;
use crate::paths::InstallationPathV;
use crate::platform::ManifestError;

verus! {

/// The value of the first member of `fields` whose key is `key`, if any.
pub open spec fn spec_lookup(fields: Seq<(Seq<char>, JsonV)>, key: Seq<char>) -> Option<JsonV>
    decreases fields.len(),
{
    if fields.len() == 0 {
        None
    } else if fields[0].0 == key {
        Some(fields[0].1)
    } else {
        spec_lookup(fields.drop_first(), key)
    }
}

/// The members contributed by an optional string field: one member when the
/// field is set, none when it is absent.
pub open spec fn opt_str_field(name: Seq<char>, o: Option<Seq<char>>) -> Seq<(Seq<char>, JsonV)> {
    match o {
        Some(s) => seq![(name, JsonV::Str(s))],
        None => Seq::empty(),
    }
}

/// An optional string member: absent or `null` reads as `None`, a string
/// as its text, and any other value is a schema violation.
pub open spec fn spec_opt_str(fields: Seq<(Seq<char>, JsonV)>, key: Seq<char>) -> Result<
    Option<Seq<char>>,
    ManifestError,
> {
    match spec_lookup(fields, key) {
        None => Ok(None),
        Some(JsonV::Null) => Ok(None),
        Some(JsonV::Str(s)) => Ok(Some(s)),
        Some(_) => Err(ManifestError::ParseError),
    }
}

/// A required string member: anything but a present string is a schema
/// violation.
pub open spec fn spec_req_str(fields: Seq<(Seq<char>, JsonV)>, key: Seq<char>) -> Result<
    Seq<char>,
    ManifestError,
> {
    match spec_lookup(fields, key) {
        Some(JsonV::Str(s)) => Ok(s),
        _ => Err(ManifestError::ParseError),
    }
}

/// The JSON form of a path template: an object holding exactly the variants
/// that are set, in declaration order.
pub open spec fn spec_ipath_json(p: InstallationPathV) -> JsonV {
    JsonV::Obj(
        opt_str_field("universal"@, p.universal) + (opt_str_field("windows"@, p.windows) + (
        opt_str_field("macos"@, p.macos) + opt_str_field("linux"@, p.linux))),
    )
}

/// The JSON form of a contact record.
pub open spec fn spec_author_json(a: AuthorV) -> JsonV {
    JsonV::Obj(
        seq![("name"@, JsonV::Str(a.name))] + (seq![("email"@, JsonV::Str(a.email))]
            + seq![("url"@, JsonV::Str(a.url))]),
    )
}

/// The JSON form of a file type association.
pub open spec fn spec_filetype_json(f: FiletypeAssociationV) -> JsonV {
    JsonV::Obj(
        seq![("extension"@, JsonV::Str(f.extension))] + seq![
            ("description"@, JsonV::Str(f.description)),
        ],
    )
}

/// The JSON form of a content bundle: the target, and the source only when
/// one is set.
pub open spec fn spec_bundle_json(b: ContentBundleV) -> JsonV {
    JsonV::Obj(
        seq![("target"@, spec_ipath_json(b.target))] + (match b.source {
            Some(s) => seq![("source"@, spec_ipath_json(s))],
            None => Seq::empty(),
        }),
    )
}

/// The JSON forms of a sequence of file type associations, in order.
pub open spec fn spec_filetype_jsons(s: Seq<FiletypeAssociationV>) -> Seq<JsonV> {
    Seq::new(s.len(), |i: int| spec_filetype_json(s[i]))
}

/// The JSON forms of a sequence of content bundles, in order.
pub open spec fn spec_bundle_jsons(s: Seq<ContentBundleV>) -> Seq<JsonV> {
    Seq::new(s.len(), |i: int| spec_bundle_json(s[i]))
}

/// The members of a manifest's JSON object, in declaration order, with
/// absent optional fields omitted.
pub open spec fn package_fields(p: PackageFileV) -> Seq<(Seq<char>, JsonV)> {
    seq![("name"@, JsonV::Str(p.name))] + (seq![("identifier"@, JsonV::Str(p.identifier))] + (
    seq![("version"@, JsonV::Str(p.version))] + (opt_str_field("icon"@, p.icon) + (seq![
        ("filetypes"@, JsonV::Arr(spec_filetype_jsons(p.filetypes))),
    ] + (seq![("developer"@, spec_author_json(p.developer))] + (seq![
        ("publisher"@, spec_author_json(p.publisher)),
    ] + (opt_str_field("minimum_hub_version"@, p.minimum_hub_version) + (seq![
        ("entrypoint"@, spec_ipath_json(p.entrypoint)),
    ] + seq![("contents"@, JsonV::Arr(spec_bundle_jsons(p.contents)))]))))))))
}

/// The JSON form of a whole manifest.
pub open spec fn spec_package_json(p: PackageFileV) -> JsonV {
    JsonV::Obj(package_fields(p))
}

/// A path template read from a JSON value: an object whose four variant
/// members, each optional, are strings.
pub open spec fn spec_ipath_of(j: JsonV) -> Result<InstallationPathV, ManifestError> {
    match j {
        JsonV::Obj(fields) => match (
            spec_opt_str(fields, "universal"@),
            spec_opt_str(fields, "windows"@),
            spec_opt_str(fields, "macos"@),
            spec_opt_str(fields, "linux"@),
        ) {
            (Ok(u), Ok(w), Ok(m), Ok(l)) => Ok(
                InstallationPathV { universal: u, windows: w, macos: m, linux: l },
            ),
            _ => Err(ManifestError::ParseError),
        },
        _ => Err(ManifestError::ParseError),
    }
}

/// A contact record read from a JSON value.
pub open spec fn spec_author_of(j: JsonV) -> Result<AuthorV, ManifestError> {
    match j {
        JsonV::Obj(fields) => match (
            spec_req_str(fields, "name"@),
            spec_req_str(fields, "email"@),
            spec_req_str(fields, "url"@),
        ) {
            (Ok(n), Ok(e), Ok(u)) => Ok(AuthorV { name: n, email: e, url: u }),
            _ => Err(ManifestError::ParseError),
        },
        _ => Err(ManifestError::ParseError),
    }
}

/// A file type association read from a JSON value.
pub open spec fn spec_filetype_of(j: JsonV) -> Result<FiletypeAssociationV, ManifestError> {
    match j {
        JsonV::Obj(fields) => match (
            spec_req_str(fields, "extension"@),
            spec_req_str(fields, "description"@),
        ) {
            (Ok(e), Ok(d)) => Ok(FiletypeAssociationV { extension: e, description: d }),
            _ => Err(ManifestError::ParseError),
        },
        _ => Err(ManifestError::ParseError),
    }
}

/// A content bundle read from a JSON value: a required `target` template
/// and an optional `source` one.
pub open spec fn spec_bundle_of(j: JsonV) -> Result<ContentBundleV, ManifestError> {
    match j {
        JsonV::Obj(fields) => match spec_lookup(fields, "target"@) {
            Some(t) => match spec_ipath_of(t) {
                Ok(tv) => match spec_lookup(fields, "source"@) {
                    None => Ok(ContentBundleV { target: tv, source: None }),
                    Some(JsonV::Null) => Ok(ContentBundleV { target: tv, source: None }),
                    Some(s) => match spec_ipath_of(s) {
                        Ok(sv) => Ok(ContentBundleV { target: tv, source: Some(sv) }),
                        Err(e) => Err(e),
                    },
                },
                Err(e) => Err(e),
            },
            None => Err(ManifestError::ParseError),
        },
        _ => Err(ManifestError::ParseError),
    }
}

/// File type associations read from a sequence of JSON values, all of which
/// must conform.
pub open spec fn spec_filetypes_seq(items: Seq<JsonV>) -> Result<
    Seq<FiletypeAssociationV>,
    ManifestError,
>
    decreases items.len(),
{
    if items.len() == 0 {
        Ok(Seq::empty())
    } else {
        match spec_filetype_of(items[0]) {
            Ok(f) => match spec_filetypes_seq(items.drop_first()) {
                Ok(rest) => Ok(seq![f] + rest),
                Err(e) => Err(e),
            },
            Err(e) => Err(e),
        }
    }
}

/// Content bundles read from a sequence of JSON values, all of which must
/// conform.
pub open spec fn spec_bundles_seq(items: Seq<JsonV>) -> Result<Seq<ContentBundleV>, ManifestError>
    decreases items.len(),
{
    if items.len() == 0 {
        Ok(Seq::empty())
    } else {
        match spec_bundle_of(items[0]) {
            Ok(b) => match spec_bundles_seq(items.drop_first()) {
                Ok(rest) => Ok(seq![b] + rest),
                Err(e) => Err(e),
            },
            Err(e) => Err(e),
        }
    }
}

/// A whole manifest read from a JSON value.  Every failure, a missing
/// required member or one of the wrong shape, is the same schema violation.
pub open spec fn spec_package_of(j: JsonV) -> Result<PackageFileV, ManifestError> {
    match j {
        JsonV::Obj(fields) => match (
            spec_req_str(fields, "name"@),
            spec_req_str(fields, "identifier"@),
            spec_req_str(fields, "version"@),
            spec_opt_str(fields, "icon"@),
            spec_opt_str(fields, "minimum_hub_version"@),
        ) {
            (Ok(nm), Ok(idf), Ok(vsn), Ok(icn), Ok(mhv)) => match (
                spec_lookup(fields, "filetypes"@),
                spec_lookup(fields, "developer"@),
                spec_lookup(fields, "publisher"@),
                spec_lookup(fields, "entrypoint"@),
                spec_lookup(fields, "contents"@),
            ) {
                (Some(JsonV::Arr(fts)), Some(dev), Some(pubr), Some(entp), Some(
                    JsonV::Arr(cts),
                )) => match (
                    spec_filetypes_seq(fts),
                    spec_author_of(dev),
                    spec_author_of(pubr),
                    spec_ipath_of(entp),
                    spec_bundles_seq(cts),
                ) {
                    (Ok(ftv), Ok(devv), Ok(pubv), Ok(entv), Ok(ctv)) => Ok(
                        PackageFileV {
                            name: nm,
                            identifier: idf,
                            version: vsn,
                            icon: icn,
                            filetypes: ftv,
                            developer: devv,
                            publisher: pubv,
                            minimum_hub_version: mhv,
                            entrypoint: entv,
                            contents: ctv,
                        },
                    ),
                    _ => Err(ManifestError::ParseError),
                },
                _ => Err(ManifestError::ParseError),
            },
            _ => Err(ManifestError::ParseError),
        },
        _ => Err(ManifestError::ParseError),
    }
}

/// Looking a key up in a list that starts with one known member.
pub proof fn lemma_lookup_cons(k: Seq<char>, jv: JsonV, rest: Seq<(Seq<char>, JsonV)>, key: Seq<
    char,
>)
    ensures
        spec_lookup(seq![(k, jv)] + rest, key) == (if k == key {
            Some(jv)
        } else {
            spec_lookup(rest, key)
        }),
{
    assert((seq![(k, jv)] + rest)[0] == (k, jv));
    assert((seq![(k, jv)] + rest).drop_first() =~= rest);
}

/// Looking a key up in a list that starts with one optional string member.
pub proof fn lemma_lookup_opt(
    k: Seq<char>,
    o: Option<Seq<char>>,
    rest: Seq<(Seq<char>, JsonV)>,
    key: Seq<char>,
)
    ensures
        o is None ==> spec_lookup(opt_str_field(k, o) + rest, key) == spec_lookup(rest, key),
        o is Some ==> spec_lookup(opt_str_field(k, o) + rest, key) == (if k == key {
            Some(JsonV::Str(o.unwrap()))
        } else {
            spec_lookup(rest, key)
        }),
{
    match o {
        None => {
            assert(opt_str_field(k, o) + rest =~= rest);
        },
        Some(s) => {
            assert(opt_str_field(k, o) =~= seq![(k, JsonV::Str(s))]);
            lemma_lookup_cons(k, JsonV::Str(s), rest, key);
        },
    }
}

/// Finds the first member of `fields` named `key`, if any.
fn lookup<'a>(fields: &'a Vec<(String, Json)>, key: &String) -> (r: Option<&'a Json>)
    ensures
        match spec_lookup(json_field_views(fields@), key@) {
            Some(v) => r matches Some(j) && j@ == v,
            None => r is None,
        },
{
    let ghost fv = json_field_views(fields@);
    proof {
        lemma_json_field_views_props(fields@);
        assert(fv.skip(0) =~= fv);
    }
    let mut i: usize = 0;
    while i < fields.len()
        invariant
            i <= fields@.len(),
            fv == json_field_views(fields@),
            fv.len() == fields@.len(),
            forall|k: int| 0 <= k < fields@.len() ==> fv[k] == (
                fields@[k].0@,
                json_view(fields@[k].1),
            ),
            spec_lookup(fv, key@) == spec_lookup(fv.skip(i as int), key@),
        decreases fields@.len() - i,
    {
        proof {
            assert(fv.skip(i as int)[0] == fv[i as int]);
            assert(fv.skip(i as int).drop_first() =~= fv.skip(i as int + 1));
            assert(fv.skip(i as int).len() == fv.len() - i);
        }
        if fields[i].0.eq(key) {
            return Some(&fields[i].1);
        }
        i += 1;
    }
    proof {
        assert(fv.skip(fv.len() as int) =~= Seq::<(Seq<char>, JsonV)>::empty());
    }
    None
}

/// Reads an optional string member: absent or `null` is `None`.
fn get_opt_str(fields: &Vec<(String, Json)>, key: &String) -> (r: Result<
    Option<String>,
    ManifestError,
>)
    ensures
        match spec_opt_str(json_field_views(fields@), key@) {
            Ok(o) => r matches Ok(v) && crate::paths::opt_view(v) == o,
            Err(e) => r == Err::<Option<String>, ManifestError>(e),
        },
{
    match lookup(fields, key) {
        None => Ok(None),
        Some(Json::Null) => Ok(None),
        Some(Json::Str(s)) => Ok(Some(s.clone())),
        Some(_) => Err(ManifestError::ParseError),
    }
}

/// Reads a required string member.
fn get_req_str(fields: &Vec<(String, Json)>, key: &String) -> (r: Result<String, ManifestError>)
    ensures
        match spec_req_str(json_field_views(fields@), key@) {
            Ok(s) => r matches Ok(v) && v@ == s,
            Err(e) => r == Err::<String, ManifestError>(e),
        },
{
    match lookup(fields, key) {
        Some(Json::Str(s)) => Ok(s.clone()),
        Some(_) => Err(ManifestError::ParseError),
        None => Err(ManifestError::ParseError),
    }
}


/// The views of a vector of file type associations, in order.
pub open spec fn filetype_views(s: Seq<FiletypeAssociation>) -> Seq<FiletypeAssociationV> {
    Seq::new(s.len(), |i: int| s[i]@)
}

/// The views of a vector of content bundles, in order.
pub open spec fn bundle_views(s: Seq<ContentBundle>) -> Seq<ContentBundleV> {
    Seq::new(s.len(), |i: int| s[i]@)
}

/// Reads a path template out of a JSON value.
fn json_to_ipath(j: &Json) -> (r: Result<InstallationPath, ManifestError>)
    ensures
        match spec_ipath_of(j@) {
            Ok(m) => r matches Ok(p) && p@ == m,
            Err(e) => r == Err::<InstallationPath, ManifestError>(e),
        },
{
    match j {
        Json::Obj(fields) => {
            let ku = String::from_str("universal");
            let u = match get_opt_str(fields, &ku) {
                Ok(v) => v,
                Err(e) => {
                    return Err(e);
                },
            };
            let kw = String::from_str("windows");
            let w = match get_opt_str(fields, &kw) {
                Ok(v) => v,
                Err(e) => {
                    return Err(e);
                },
            };
            let km = String::from_str("macos");
            let m = match get_opt_str(fields, &km) {
                Ok(v) => v,
                Err(e) => {
                    return Err(e);
                },
            };
            let kl = String::from_str("linux");
            let l = match get_opt_str(fields, &kl) {
                Ok(v) => v,
                Err(e) => {
                    return Err(e);
                },
            };
            Ok(InstallationPath { universal: u, windows: w, macos: m, linux: l })
        },
        _ => Err(ManifestError::ParseError),
    }
}

/// Reads a contact record out of a JSON value.
fn json_to_author(j: &Json) -> (r: Result<Author, ManifestError>)
    ensures
        match spec_author_of(j@) {
            Ok(m) => r matches Ok(a) && a@ == m,
            Err(e) => r == Err::<Author, ManifestError>(e),
        },
{
    match j {
        Json::Obj(fields) => {
            let kn = String::from_str("name");
            let n = match get_req_str(fields, &kn) {
                Ok(v) => v,
                Err(e) => {
                    return Err(e);
                },
            };
            let ke = String::from_str("email");
            let em = match get_req_str(fields, &ke) {
                Ok(v) => v,
                Err(e) => {
                    return Err(e);
                },
            };
            let kl = String::from_str("url");
            let u = match get_req_str(fields, &kl) {
                Ok(v) => v,
                Err(e) => {
                    return Err(e);
                },
            };
            Ok(Author { name: n, email: em, url: u })
        },
        _ => Err(ManifestError::ParseError),
    }
}

/// Reads a file type association out of a JSON value.
fn json_to_filetype(j: &Json) -> (r: Result<FiletypeAssociation, ManifestError>)
    ensures
        match spec_filetype_of(j@) {
            Ok(m) => r matches Ok(f) && f@ == m,
            Err(e) => r == Err::<FiletypeAssociation, ManifestError>(e),
        },
{
    match j {
        Json::Obj(fields) => {
            let ke = String::from_str("extension");
            let ext = match get_req_str(fields, &ke) {
                Ok(v) => v,
                Err(e) => {
                    return Err(e);
                },
            };
            let kd = String::from_str("description");
            let d = match get_req_str(fields, &kd) {
                Ok(v) => v,
                Err(e) => {
                    return Err(e);
                },
            };
            Ok(FiletypeAssociation { extension: ext, description: d })
        },
        _ => Err(ManifestError::ParseError),
    }
}

/// Reads a content bundle out of a JSON value.
fn json_to_bundle(j: &Json) -> (r: Result<ContentBundle, ManifestError>)
    ensures
        match spec_bundle_of(j@) {
            Ok(m) => r matches Ok(b) && b@ == m,
            Err(e) => r == Err::<ContentBundle, ManifestError>(e),
        },
{
    match j {
        Json::Obj(fields) => {
            let kt = String::from_str("target");
            let tj = match lookup(fields, &kt) {
                Some(x) => x,
                None => {
                    return Err(ManifestError::ParseError);
                },
            };
            let tv = match json_to_ipath(tj) {
                Ok(v) => v,
                Err(e) => {
                    return Err(e);
                },
            };
            let ks = String::from_str("source");
            match lookup(fields, &ks) {
                None => Ok(ContentBundle { target: tv, source: None }),
                Some(Json::Null) => Ok(ContentBundle { target: tv, source: None }),
                Some(sj) => match json_to_ipath(sj) {
                    Ok(sv) => Ok(ContentBundle { target: tv, source: Some(sv) }),
                    Err(e) => Err(e),
                },
            }
        },
        _ => Err(ManifestError::ParseError),
    }
}

/// Reads the elements of a `filetypes` array.
#[verifier::loop_isolation(false)]
fn json_to_filetypes(items: &Vec<Json>) -> (r: Result<Vec<FiletypeAssociation>, ManifestError>)
    ensures
        match spec_filetypes_seq(json_views(items@)) {
            Ok(ms) => r matches Ok(v) && filetype_views(v@) == ms,
            Err(e) => r == Err::<Vec<FiletypeAssociation>, ManifestError>(e),
        },
{
    let ghost iv = json_views(items@);
    proof {
        lemma_json_views_props(items@);
        assert(iv.skip(0) =~= iv);
    }
    let mut acc: Vec<FiletypeAssociation> = Vec::new();
    let mut i: usize = 0;
    proof {
        assert(filetype_views(acc@) =~= Seq::<FiletypeAssociationV>::empty());
    }
    while i < items.len()
        invariant
            i <= items@.len(),
            acc@.len() == i,
            match spec_filetypes_seq(iv.skip(i as int)) {
                Ok(rest) => spec_filetypes_seq(iv) == Ok::<
                    Seq<FiletypeAssociationV>,
                    ManifestError,
                >(filetype_views(acc@) + rest),
                Err(e) => spec_filetypes_seq(iv) == Err::<
                    Seq<FiletypeAssociationV>,
                    ManifestError,
                >(e),
            },
        decreases items@.len() - i,
    {
        proof {
            assert(iv.skip(i as int)[0] == iv[i as int]);
            assert(iv.skip(i as int).drop_first() =~= iv.skip(i as int + 1));
            assert(iv.skip(i as int).len() == iv.len() - i);
        }
        match json_to_filetype(&items[i]) {
            Ok(f) => {
                let ghost acc_old = acc@;
                let ghost fv = f@;
                acc.push(f);
                proof {
                    assert(filetype_views(acc@) =~= filetype_views(acc_old) + seq![fv]);
                    if spec_filetypes_seq(iv.skip(i as int + 1)) is Ok {
                        let rest2 = spec_filetypes_seq(iv.skip(i as int + 1))->Ok_0;
                        assert(filetype_views(acc_old) + (seq![fv] + rest2) =~= (filetype_views(
                            acc_old,
                        ) + seq![fv]) + rest2);
                    }
                }
                i += 1;
            },
            Err(e) => {
                return Err(e);
            },
        }
    }
    proof {
        assert(iv.skip(iv.len() as int) =~= Seq::<JsonV>::empty());
        assert(spec_filetypes_seq(Seq::<JsonV>::empty()) == Ok::<
            Seq<FiletypeAssociationV>,
            ManifestError,
        >(Seq::empty()));
        assert(filetype_views(acc@) + Seq::<FiletypeAssociationV>::empty() =~= filetype_views(
            acc@,
        ));
    }
    Ok(acc)
}

/// Reads the elements of a `contents` array.
#[verifier::loop_isolation(false)]
fn json_to_bundles(items: &Vec<Json>) -> (r: Result<Vec<ContentBundle>, ManifestError>)
    ensures
        match spec_bundles_seq(json_views(items@)) {
            Ok(ms) => r matches Ok(v) && bundle_views(v@) == ms,
            Err(e) => r == Err::<Vec<ContentBundle>, ManifestError>(e),
        },
{
    let ghost iv = json_views(items@);
    proof {
        lemma_json_views_props(items@);
        assert(iv.skip(0) =~= iv);
    }
    let mut acc: Vec<ContentBundle> = Vec::new();
    let mut i: usize = 0;
    proof {
        assert(bundle_views(acc@) =~= Seq::<ContentBundleV>::empty());
    }
    while i < items.len()
        invariant
            i <= items@.len(),
            acc@.len() == i,
            match spec_bundles_seq(iv.skip(i as int)) {
                Ok(rest) => spec_bundles_seq(iv) == Ok::<Seq<ContentBundleV>, ManifestError>(
                    bundle_views(acc@) + rest,
                ),
                Err(e) => spec_bundles_seq(iv) == Err::<Seq<ContentBundleV>, ManifestError>(e),
            },
        decreases items@.len() - i,
    {
        proof {
            assert(iv.skip(i as int)[0] == iv[i as int]);
            assert(iv.skip(i as int).drop_first() =~= iv.skip(i as int + 1));
            assert(iv.skip(i as int).len() == iv.len() - i);
        }
        match json_to_bundle(&items[i]) {
            Ok(b) => {
                let ghost acc_old = acc@;
                let ghost bv = b@;
                acc.push(b);
                proof {
                    assert(bundle_views(acc@) =~= bundle_views(acc_old) + seq![bv]);
                    if spec_bundles_seq(iv.skip(i as int + 1)) is Ok {
                        let rest2 = spec_bundles_seq(iv.skip(i as int + 1))->Ok_0;
                        assert(bundle_views(acc_old) + (seq![bv] + rest2) =~= (bundle_views(
                            acc_old,
                        ) + seq![bv]) + rest2);
                    }
                }
                i += 1;
            },
            Err(e) => {
                return Err(e);
            },
        }
    }
    proof {
        assert(iv.skip(iv.len() as int) =~= Seq::<JsonV>::empty());
        assert(spec_bundles_seq(Seq::<JsonV>::empty()) == Ok::<Seq<ContentBundleV>, ManifestError>(
            Seq::empty(),
        ));
        assert(bundle_views(acc@) + Seq::<ContentBundleV>::empty() =~= bundle_views(acc@));
    }
    Ok(acc)
}



/// Every failure of reading a path template is the schema violation.
pub proof fn lemma_ipath_of_err(j: JsonV)
    ensures
        spec_ipath_of(j) is Err ==> spec_ipath_of(j) == Err::<InstallationPathV, ManifestError>(
            ManifestError::ParseError,
        ),
{
}

/// Every failure of reading a content bundle is the schema violation.
pub proof fn lemma_bundle_of_err(j: JsonV)
    ensures
        spec_bundle_of(j) is Err ==> spec_bundle_of(j) == Err::<ContentBundleV, ManifestError>(
            ManifestError::ParseError,
        ),
{
    if j is Obj {
        let fields = j->Obj_0;
        match spec_lookup(fields, "target"@) {
            Some(t) => {
                lemma_ipath_of_err(t);
                match spec_lookup(fields, "source"@) {
                    Some(s) => {
                        lemma_ipath_of_err(s);
                    },
                    None => {},
                }
            },
            None => {},
        }
    }
}

/// Every failure of reading a file type array is the schema violation.
pub proof fn lemma_filetypes_seq_err(items: Seq<JsonV>)
    ensures
        spec_filetypes_seq(items) is Err ==> spec_filetypes_seq(items) == Err::<
            Seq<FiletypeAssociationV>,
            ManifestError,
        >(ManifestError::ParseError),
    decreases items.len(),
{
    if items.len() > 0 {
        lemma_filetypes_seq_err(items.drop_first());
    }
}

/// Every failure of reading a content array is the schema violation.
pub proof fn lemma_bundles_seq_err(items: Seq<JsonV>)
    ensures
        spec_bundles_seq(items) is Err ==> spec_bundles_seq(items) == Err::<
            Seq<ContentBundleV>,
            ManifestError,
        >(ManifestError::ParseError),
    decreases items.len(),
{
    if items.len() > 0 {
        lemma_bundle_of_err(items[0]);
        lemma_bundles_seq_err(items.drop_first());
    }
}

/// Appends one member to an object under construction.
fn push_field(fields: &mut Vec<(String, Json)>, key: String, val: Json)
    ensures
        json_field_views(final(fields)@) == json_field_views(old(fields)@) + seq![
            (key@, json_view(val)),
        ],
{
    let ghost f0 = fields@;
    let ghost kvg = (key, val);
    fields.push((key, val));
    proof {
        assert(fields@ == f0.push(kvg));
        lemma_field_views_snoc(f0, kvg);
    }
}

/// Appends one element to an array under construction.
fn push_item(items: &mut Vec<Json>, val: Json)
    ensures
        json_views(final(items)@) == json_views(old(items)@) + seq![json_view(val)],
{
    let ghost i0 = items@;
    let ghost vg = val;
    items.push(val);
    proof {
        assert(items@ == i0.push(vg));
        lemma_views_snoc(i0, vg);
    }
}

/// The JSON tree of a path template.
fn ipath_to_json(p: &InstallationPath) -> (r: Json)
    ensures
        r@ == spec_ipath_json(p@),
{
    let mut fields: Vec<(String, Json)> = Vec::new();
    proof {
        assert(json_field_views(fields@) == Seq::<(Seq<char>, JsonV)>::empty());
    }
    if let Some(s) = &p.universal {
        push_field(&mut fields, String::from_str("universal"), Json::Str(s.clone()));
    }
    if let Some(s) = &p.windows {
        push_field(&mut fields, String::from_str("windows"), Json::Str(s.clone()));
    }
    if let Some(s) = &p.macos {
        push_field(&mut fields, String::from_str("macos"), Json::Str(s.clone()));
    }
    if let Some(s) = &p.linux {
        push_field(&mut fields, String::from_str("linux"), Json::Str(s.clone()));
    }
    proof {
        assert(json_field_views(fields@) =~= opt_str_field("universal"@, p@.universal) + (
        opt_str_field("windows"@, p@.windows) + (opt_str_field("macos"@, p@.macos)
            + opt_str_field("linux"@, p@.linux))));
    }
    Json::Obj(fields)
}

/// The JSON tree of a contact record.
fn author_to_json(a: &Author) -> (r: Json)
    ensures
        r@ == spec_author_json(a@),
{
    let mut fields: Vec<(String, Json)> = Vec::new();
    proof {
        assert(json_field_views(fields@) == Seq::<(Seq<char>, JsonV)>::empty());
    }
    push_field(&mut fields, String::from_str("name"), Json::Str(a.name.clone()));
    push_field(&mut fields, String::from_str("email"), Json::Str(a.email.clone()));
    push_field(&mut fields, String::from_str("url"), Json::Str(a.url.clone()));
    proof {
        assert(json_field_views(fields@) =~= seq![("name"@, JsonV::Str(a@.name))] + (seq![
            ("email"@, JsonV::Str(a@.email)),
        ] + seq![("url"@, JsonV::Str(a@.url))]));
    }
    Json::Obj(fields)
}

/// The JSON tree of a file type association.
fn filetype_to_json(f: &FiletypeAssociation) -> (r: Json)
    ensures
        r@ == spec_filetype_json(f@),
{
    let mut fields: Vec<(String, Json)> = Vec::new();
    proof {
        assert(json_field_views(fields@) == Seq::<(Seq<char>, JsonV)>::empty());
    }
    push_field(&mut fields, String::from_str("extension"), Json::Str(f.extension.clone()));
    push_field(&mut fields, String::from_str("description"), Json::Str(f.description.clone()));
    proof {
        assert(json_field_views(fields@) =~= seq![("extension"@, JsonV::Str(f@.extension))]
            + seq![("description"@, JsonV::Str(f@.description))]);
    }
    Json::Obj(fields)
}

/// The JSON tree of a content bundle.
fn bundle_to_json(b: &ContentBundle) -> (r: Json)
    ensures
        r@ == spec_bundle_json(b@),
{
    let mut fields: Vec<(String, Json)> = Vec::new();
    proof {
        assert(json_field_views(fields@) == Seq::<(Seq<char>, JsonV)>::empty());
    }
    push_field(&mut fields, String::from_str("target"), ipath_to_json(&b.target));
    if let Some(s) = &b.source {
        push_field(&mut fields, String::from_str("source"), ipath_to_json(s));
    }
    proof {
        assert(json_field_views(fields@) =~= seq![("target"@, spec_ipath_json(b@.target))] + (
        match b@.source {
            Some(s) => seq![("source"@, spec_ipath_json(s))],
            None => Seq::<(Seq<char>, JsonV)>::empty(),
        }));
    }
    Json::Obj(fields)
}

impl PackageFile {
    /// The JSON tree of the manifest, with the members in declaration order
    /// and absent optional fields omitted.
    #[verifier::loop_isolation(false)]
    pub fn to_json(&self) -> (r: Json)
        ensures
            r@ == spec_package_json(self@),
    {
        let mut fields: Vec<(String, Json)> = Vec::new();
        proof {
            assert(json_field_views(fields@) == Seq::<(Seq<char>, JsonV)>::empty());
        }
        push_field(&mut fields, String::from_str("name"), Json::Str(self.name.clone()));
        push_field(&mut fields, String::from_str("identifier"), Json::Str(self.identifier.clone()));
        push_field(&mut fields, String::from_str("version"), Json::Str(self.version.clone()));
        if let Some(s) = &self.icon {
            push_field(&mut fields, String::from_str("icon"), Json::Str(s.clone()));
        }
        let mut ftitems: Vec<Json> = Vec::new();
        proof {
            assert(json_views(ftitems@) == Seq::<JsonV>::empty());
            assert(json_views(ftitems@) =~= spec_filetype_jsons(self@.filetypes.subrange(0, 0)));
        }
        let mut i: usize = 0;
        while i < self.filetypes.len()
            invariant
                i <= self.filetypes@.len(),
                json_views(ftitems@) == spec_filetype_jsons(self@.filetypes.subrange(0, i as int)),
            decreases self.filetypes@.len() - i,
        {
            let fj = filetype_to_json(&self.filetypes[i]);
            push_item(&mut ftitems, fj);
            proof {
                assert(self.filetypes@[i as int]@ == self@.filetypes[i as int]);
                assert(spec_filetype_jsons(self@.filetypes.subrange(0, i as int)) + seq![
                    spec_filetype_json(self@.filetypes[i as int]),
                ] =~= spec_filetype_jsons(self@.filetypes.subrange(0, i as int + 1)));
            }
            i += 1;
        }
        proof {
            assert(self@.filetypes.subrange(0, self@.filetypes.len() as int) =~= self@.filetypes);
        }
        push_field(&mut fields, String::from_str("filetypes"), Json::Arr(ftitems));
        push_field(&mut fields, String::from_str("developer"), author_to_json(&self.developer));
        push_field(&mut fields, String::from_str("publisher"), author_to_json(&self.publisher));
        if let Some(s) = &self.minimum_hub_version {
            push_field(&mut fields, String::from_str("minimum_hub_version"), Json::Str(s.clone()));
        }
        push_field(&mut fields, String::from_str("entrypoint"), ipath_to_json(&self.entrypoint));
        let mut ctitems: Vec<Json> = Vec::new();
        proof {
            assert(json_views(ctitems@) == Seq::<JsonV>::empty());
            assert(json_views(ctitems@) =~= spec_bundle_jsons(self@.contents.subrange(0, 0)));
        }
        let mut k: usize = 0;
        while k < self.contents.len()
            invariant
                k <= self.contents@.len(),
                json_views(ctitems@) == spec_bundle_jsons(self@.contents.subrange(0, k as int)),
            decreases self.contents@.len() - k,
        {
            let cj = bundle_to_json(&self.contents[k]);
            push_item(&mut ctitems, cj);
            proof {
                assert(self.contents@[k as int]@ == self@.contents[k as int]);
                assert(spec_bundle_jsons(self@.contents.subrange(0, k as int)) + seq![
                    spec_bundle_json(self@.contents[k as int]),
                ] =~= spec_bundle_jsons(self@.contents.subrange(0, k as int + 1)));
            }
            k += 1;
        }
        proof {
            assert(self@.contents.subrange(0, self@.contents.len() as int) =~= self@.contents);
        }
        push_field(&mut fields, String::from_str("contents"), Json::Arr(ctitems));
        proof {
            assert(json_field_views(fields@) =~= package_fields(self@));
        }
        Json::Obj(fields)
    }

    /// Reads a manifest out of a JSON tree.
    pub fn from_json(j: &Json) -> (r: Result<PackageFile, ManifestError>)
        ensures
            match spec_package_of(j@) {
                Ok(m) => r matches Ok(p) && p@ == m,
                Err(e) => r == Err::<PackageFile, ManifestError>(e),
            },
    {
        match j {
            Json::Obj(fields) => {
                let nm = match get_req_str(fields, &String::from_str("name")) {
                    Ok(v) => v,
                    Err(e) => {
                        return Err(e);
                    },
                };
                let idf = match get_req_str(fields, &String::from_str("identifier")) {
                    Ok(v) => v,
                    Err(e) => {
                        return Err(e);
                    },
                };
                let vsn = match get_req_str(fields, &String::from_str("version")) {
                    Ok(v) => v,
                    Err(e) => {
                        return Err(e);
                    },
                };
                let icn = match get_opt_str(fields, &String::from_str("icon")) {
                    Ok(v) => v,
                    Err(e) => {
                        return Err(e);
                    },
                };
                let mhv = match get_opt_str(fields, &String::from_str("minimum_hub_version")) {
                    Ok(v) => v,
                    Err(e) => {
                        return Err(e);
                    },
                };
                let ftj = match lookup(fields, &String::from_str("filetypes")) {
                    Some(x) => x,
                    None => {
                        return Err(ManifestError::ParseError);
                    },
                };
                let fts = match ftj {
                    Json::Arr(items) => match json_to_filetypes(items) {
                        Ok(v) => v,
                        Err(e) => {
                            proof {
                                lemma_filetypes_seq_err(json_views(items@));
                            }
                            return Err(e);
                        },
                    },
                    _ => {
                        return Err(ManifestError::ParseError);
                    },
                };
                let devj = match lookup(fields, &String::from_str("developer")) {
                    Some(x) => x,
                    None => {
                        return Err(ManifestError::ParseError);
                    },
                };
                let dev = match json_to_author(devj) {
                    Ok(v) => v,
                    Err(e) => {
                        return Err(e);
                    },
                };
                let pubj = match lookup(fields, &String::from_str("publisher")) {
                    Some(x) => x,
                    None => {
                        return Err(ManifestError::ParseError);
                    },
                };
                let pubr = match json_to_author(pubj) {
                    Ok(v) => v,
                    Err(e) => {
                        return Err(e);
                    },
                };
                let entj = match lookup(fields, &String::from_str("entrypoint")) {
                    Some(x) => x,
                    None => {
                        return Err(ManifestError::ParseError);
                    },
                };
                let ent = match json_to_ipath(entj) {
                    Ok(v) => v,
                    Err(e) => {
                        return Err(e);
                    },
                };
                let ctj = match lookup(fields, &String::from_str("contents")) {
                    Some(x) => x,
                    None => {
                        return Err(ManifestError::ParseError);
                    },
                };
                let cts = match ctj {
                    Json::Arr(items) => match json_to_bundles(items) {
                        Ok(v) => v,
                        Err(e) => {
                            proof {
                                lemma_bundles_seq_err(json_views(items@));
                            }
                            return Err(e);
                        },
                    },
                    _ => {
                        return Err(ManifestError::ParseError);
                    },
                };
                let p = PackageFile {
                    name: nm,
                    identifier: idf,
                    version: vsn,
                    icon: icn,
                    filetypes: fts,
                    developer: dev,
                    publisher: pubr,
                    minimum_hub_version: mhv,
                    entrypoint: ent,
                    contents: cts,
                };
                proof {
                    assert(p@.filetypes =~= filetype_views(p.filetypes@));
                    assert(p@.contents =~= bundle_views(p.contents@));
                    assert(p@ == spec_package_of(j@)->Ok_0);
                }
                Ok(p)
            },
            _ => Err(ManifestError::ParseError),
        }
    }
}


/// Every failure of reading a manifest is the schema violation.
pub proof fn lemma_package_of_err(j: JsonV)
    ensures
        spec_package_of(j) is Err ==> spec_package_of(j) == Err::<PackageFileV, ManifestError>(
            ManifestError::ParseError,
        ),
{
}

impl PackageFile {
    /// Parses a manifest out of its textual form: the text is read as one
    /// JSON document, and the document as a manifest.  The result is a
    /// function of the text alone; every failure, text that is not JSON or
    /// a document that does not match the schema, is `ParseError`.
    pub fn from_json_text(text: &str) -> (r: Result<PackageFile, ManifestError>)
        ensures
            ({
                match spec_parse_text(text@) {
                    Ok(jv) => match spec_package_of(jv) {
                        Ok(m) => r matches Ok(p) && p@ == m,
                        Err(e) => r == Err::<PackageFile, ManifestError>(e),
                    },
                    Err(e) => r == Err::<PackageFile, ManifestError>(e),
                }
            }),
            r is Err ==> r == Err::<PackageFile, ManifestError>(ManifestError::ParseError),
    {
        match parse_text(text) {
            Ok(j) => match PackageFile::from_json(&j) {
                Ok(p) => Ok(p),
                Err(e) => {
                    proof {
                        lemma_package_of_err(j@);
                    }
                    Err(e)
                },
            },
            Err(e) => Err(e),
        }
    }

    /// The manifest's textual form: its JSON tree, pretty-printed.
    pub fn to_json_text(&self) -> (r: String)
        ensures
            r@ == spec_print(spec_package_json(self@), Seq::<char>::empty()),
    {
        self.to_json().to_text()
    }
}

/// Reading back the JSON form of a path template gives the template.
pub proof fn lemma_ipath_round_trip(v: InstallationPathV)
    ensures
        spec_ipath_of(spec_ipath_json(v)) == Ok::<InstallationPathV, ManifestError>(v),
{
    reveal_strlit("universal");
    reveal_strlit("windows");
    reveal_strlit("macos");
    reveal_strlit("linux");
    assert("universal"@.len() == 9 && "windows"@.len() == 7);
    assert("macos"@.len() == 5 && "linux"@.len() == 5);
    assert("macos"@[0] == 'm' && "linux"@[0] == 'l');
    let ow = opt_str_field("windows"@, v.windows);
    let om = opt_str_field("macos"@, v.macos);
    let ol = opt_str_field("linux"@, v.linux);
    let empty = Seq::<(Seq<char>, JsonV)>::empty();
    assert(ol + empty =~= ol);
    assert(spec_lookup(empty, "universal"@) is None);
    assert(spec_lookup(empty, "windows"@) is None);
    assert(spec_lookup(empty, "macos"@) is None);
    assert(spec_lookup(empty, "linux"@) is None);
    lemma_lookup_opt("universal"@, v.universal, ow + (om + ol), "universal"@);
    lemma_lookup_opt("windows"@, v.windows, om + ol, "universal"@);
    lemma_lookup_opt("macos"@, v.macos, ol, "universal"@);
    lemma_lookup_opt("linux"@, v.linux, empty, "universal"@);
    lemma_lookup_opt("universal"@, v.universal, ow + (om + ol), "windows"@);
    lemma_lookup_opt("windows"@, v.windows, om + ol, "windows"@);
    lemma_lookup_opt("macos"@, v.macos, ol, "windows"@);
    lemma_lookup_opt("linux"@, v.linux, empty, "windows"@);
    lemma_lookup_opt("universal"@, v.universal, ow + (om + ol), "macos"@);
    lemma_lookup_opt("windows"@, v.windows, om + ol, "macos"@);
    lemma_lookup_opt("macos"@, v.macos, ol, "macos"@);
    lemma_lookup_opt("linux"@, v.linux, empty, "macos"@);
    lemma_lookup_opt("universal"@, v.universal, ow + (om + ol), "linux"@);
    lemma_lookup_opt("windows"@, v.windows, om + ol, "linux"@);
    lemma_lookup_opt("macos"@, v.macos, ol, "linux"@);
    lemma_lookup_opt("linux"@, v.linux, empty, "linux"@);
    let fields = spec_ipath_json(v)->Obj_0;
    assert(spec_opt_str(fields, "universal"@) == Ok::<Option<Seq<char>>, ManifestError>(
        v.universal,
    ));
    assert(spec_opt_str(fields, "windows"@) == Ok::<Option<Seq<char>>, ManifestError>(v.windows));
    assert(spec_opt_str(fields, "macos"@) == Ok::<Option<Seq<char>>, ManifestError>(v.macos));
    assert(spec_opt_str(fields, "linux"@) == Ok::<Option<Seq<char>>, ManifestError>(v.linux));
}

/// Reading back the JSON form of a contact record gives the record.
pub proof fn lemma_author_round_trip(a: AuthorV)
    ensures
        spec_author_of(spec_author_json(a)) == Ok::<AuthorV, ManifestError>(a),
{
    reveal_strlit("name");
    reveal_strlit("email");
    reveal_strlit("url");
    assert("name"@.len() == 4 && "email"@.len() == 5 && "url"@.len() == 3);
    let f2 = seq![("email"@, JsonV::Str(a.email))];
    let f3 = seq![("url"@, JsonV::Str(a.url))];
    let empty = Seq::<(Seq<char>, JsonV)>::empty();
    assert(f3 + empty =~= f3);
    assert(spec_lookup(empty, "name"@) is None);
    assert(spec_lookup(empty, "email"@) is None);
    assert(spec_lookup(empty, "url"@) is None);
    lemma_lookup_cons("name"@, JsonV::Str(a.name), f2 + f3, "name"@);
    lemma_lookup_cons("email"@, JsonV::Str(a.email), f3, "name"@);
    lemma_lookup_cons("url"@, JsonV::Str(a.url), empty, "name"@);
    lemma_lookup_cons("name"@, JsonV::Str(a.name), f2 + f3, "email"@);
    lemma_lookup_cons("email"@, JsonV::Str(a.email), f3, "email"@);
    lemma_lookup_cons("url"@, JsonV::Str(a.url), empty, "email"@);
    lemma_lookup_cons("name"@, JsonV::Str(a.name), f2 + f3, "url"@);
    lemma_lookup_cons("email"@, JsonV::Str(a.email), f3, "url"@);
    lemma_lookup_cons("url"@, JsonV::Str(a.url), empty, "url"@);
    let fields = spec_author_json(a)->Obj_0;
    assert(spec_req_str(fields, "name"@) == Ok::<Seq<char>, ManifestError>(a.name));
    assert(spec_req_str(fields, "email"@) == Ok::<Seq<char>, ManifestError>(a.email));
    assert(spec_req_str(fields, "url"@) == Ok::<Seq<char>, ManifestError>(a.url));
}

/// Reading back the JSON form of a file type association gives it.
pub proof fn lemma_filetype_round_trip(f: FiletypeAssociationV)
    ensures
        spec_filetype_of(spec_filetype_json(f)) == Ok::<FiletypeAssociationV, ManifestError>(f),
{
    reveal_strlit("extension");
    reveal_strlit("description");
    assert("extension"@.len() == 9 && "description"@.len() == 11);
    let f2 = seq![("description"@, JsonV::Str(f.description))];
    let empty = Seq::<(Seq<char>, JsonV)>::empty();
    assert(f2 + empty =~= f2);
    assert(spec_lookup(empty, "extension"@) is None);
    assert(spec_lookup(empty, "description"@) is None);
    lemma_lookup_cons("extension"@, JsonV::Str(f.extension), f2, "extension"@);
    lemma_lookup_cons("description"@, JsonV::Str(f.description), empty, "extension"@);
    lemma_lookup_cons("extension"@, JsonV::Str(f.extension), f2, "description"@);
    lemma_lookup_cons("description"@, JsonV::Str(f.description), empty, "description"@);
    let fields = spec_filetype_json(f)->Obj_0;
    assert(spec_req_str(fields, "extension"@) == Ok::<Seq<char>, ManifestError>(f.extension));
    assert(spec_req_str(fields, "description"@) == Ok::<Seq<char>, ManifestError>(f.description));
}

/// Reading back the JSON form of a content bundle gives the bundle.
pub proof fn lemma_bundle_round_trip(b: ContentBundleV)
    ensures
        spec_bundle_of(spec_bundle_json(b)) == Ok::<ContentBundleV, ManifestError>(b),
{
    reveal_strlit("target");
    reveal_strlit("source");
    assert("target"@.len() == 6 && "source"@.len() == 6);
    assert("target"@[0] == 't' && "source"@[0] == 's');
    let tj = spec_ipath_json(b.target);
    let empty = Seq::<(Seq<char>, JsonV)>::empty();
    let rest = match b.source {
        Some(s) => seq![("source"@, spec_ipath_json(s))],
        None => Seq::<(Seq<char>, JsonV)>::empty(),
    };
    lemma_lookup_cons("target"@, tj, rest, "target"@);
    lemma_lookup_cons("target"@, tj, rest, "source"@);
    lemma_ipath_round_trip(b.target);
    match b.source {
        Some(s) => {
            assert(rest + empty =~= rest);
            lemma_lookup_cons("source"@, spec_ipath_json(s), empty, "source"@);
            assert(spec_lookup(empty, "source"@) is None);
            lemma_ipath_round_trip(s);
        },
        None => {
            assert(spec_lookup(rest, "source"@) is None);
        },
    }
}

/// Reading back the JSON forms of file type associations gives them all.
pub proof fn lemma_filetypes_round_trip(s: Seq<FiletypeAssociationV>)
    ensures
        spec_filetypes_seq(spec_filetype_jsons(s)) == Ok::<Seq<FiletypeAssociationV>,
            ManifestError,
        >(s),
    decreases s.len(),
{
    let js = spec_filetype_jsons(s);
    if s.len() == 0 {
        assert(js.len() == 0);
        assert(Seq::<FiletypeAssociationV>::empty() =~= s);
    } else {
        assert(js[0] == spec_filetype_json(s[0]));
        lemma_filetype_round_trip(s[0]);
        assert(js.drop_first() =~= spec_filetype_jsons(s.drop_first()));
        lemma_filetypes_round_trip(s.drop_first());
        assert(seq![s[0]] + s.drop_first() =~= s);
    }
}

/// Reading back the JSON forms of content bundles gives them all.
pub proof fn lemma_bundles_round_trip(s: Seq<ContentBundleV>)
    ensures
        spec_bundles_seq(spec_bundle_jsons(s)) == Ok::<Seq<ContentBundleV>, ManifestError>(s),
    decreases s.len(),
{
    let js = spec_bundle_jsons(s);
    if s.len() == 0 {
        assert(js.len() == 0);
        assert(Seq::<ContentBundleV>::empty() =~= s);
    } else {
        assert(js[0] == spec_bundle_json(s[0]));
        lemma_bundle_round_trip(s[0]);
        assert(js.drop_first() =~= spec_bundle_jsons(s.drop_first()));
        lemma_bundles_round_trip(s.drop_first());
        assert(seq![s[0]] + s.drop_first() =~= s);
    }
}

/// What looking any key up in a manifest's JSON object finds.
pub proof fn lemma_package_lookup(p: PackageFileV, key: Seq<char>)
    ensures
        spec_lookup(package_fields(p), key) == (if key == "name"@ {
            Some(JsonV::Str(p.name))
        } else if key == "identifier"@ {
            Some(JsonV::Str(p.identifier))
        } else if key == "version"@ {
            Some(JsonV::Str(p.version))
        } else if key == "icon"@ {
            match p.icon {
                Some(s) => Some(JsonV::Str(s)),
                None => None::<JsonV>,
            }
        } else if key == "filetypes"@ {
            Some(JsonV::Arr(spec_filetype_jsons(p.filetypes)))
        } else if key == "developer"@ {
            Some(spec_author_json(p.developer))
        } else if key == "publisher"@ {
            Some(spec_author_json(p.publisher))
        } else if key == "minimum_hub_version"@ {
            match p.minimum_hub_version {
                Some(s) => Some(JsonV::Str(s)),
                None => None::<JsonV>,
            }
        } else if key == "entrypoint"@ {
            Some(spec_ipath_json(p.entrypoint))
        } else if key == "contents"@ {
            Some(JsonV::Arr(spec_bundle_jsons(p.contents)))
        } else {
            None::<JsonV>
        }),
{
    reveal_strlit("name");
    reveal_strlit("identifier");
    reveal_strlit("version");
    reveal_strlit("icon");
    reveal_strlit("filetypes");
    reveal_strlit("developer");
    reveal_strlit("publisher");
    reveal_strlit("minimum_hub_version");
    reveal_strlit("entrypoint");
    reveal_strlit("contents");
    assert("name"@.len() == 4 && "identifier"@.len() == 10 && "version"@.len() == 7);
    assert("icon"@.len() == 4 && "filetypes"@.len() == 9 && "developer"@.len() == 9);
    assert("publisher"@.len() == 9 && "minimum_hub_version"@.len() == 19);
    assert("entrypoint"@.len() == 10 && "contents"@.len() == 8);
    assert("name"@[0] == 'n' && "icon"@[0] == 'i');
    assert("filetypes"@[0] == 'f' && "developer"@[0] == 'd' && "publisher"@[0] == 'p');
    assert("identifier"@[0] == 'i' && "entrypoint"@[0] == 'e');
    let t10 = seq![("contents"@, JsonV::Arr(spec_bundle_jsons(p.contents)))];
    let t9 = seq![("entrypoint"@, spec_ipath_json(p.entrypoint))] + t10;
    let t8 = opt_str_field("minimum_hub_version"@, p.minimum_hub_version) + t9;
    let t7 = seq![("publisher"@, spec_author_json(p.publisher))] + t8;
    let t6 = seq![("developer"@, spec_author_json(p.developer))] + t7;
    let t5 = seq![("filetypes"@, JsonV::Arr(spec_filetype_jsons(p.filetypes)))] + t6;
    let t4 = opt_str_field("icon"@, p.icon) + t5;
    let t3 = seq![("version"@, JsonV::Str(p.version))] + t4;
    let t2 = seq![("identifier"@, JsonV::Str(p.identifier))] + t3;
    let t1 = seq![("name"@, JsonV::Str(p.name))] + t2;
    assert(t1 == package_fields(p));
    let empty = Seq::<(Seq<char>, JsonV)>::empty();
    lemma_lookup_cons("name"@, JsonV::Str(p.name), t2, key);
    lemma_lookup_cons("identifier"@, JsonV::Str(p.identifier), t3, key);
    lemma_lookup_cons("version"@, JsonV::Str(p.version), t4, key);
    lemma_lookup_opt("icon"@, p.icon, t5, key);
    lemma_lookup_cons("filetypes"@, JsonV::Arr(spec_filetype_jsons(p.filetypes)), t6, key);
    lemma_lookup_cons("developer"@, spec_author_json(p.developer), t7, key);
    lemma_lookup_cons("publisher"@, spec_author_json(p.publisher), t8, key);
    lemma_lookup_opt("minimum_hub_version"@, p.minimum_hub_version, t9, key);
    assert(t10 + empty =~= t10);
    lemma_lookup_cons("entrypoint"@, spec_ipath_json(p.entrypoint), t10, key);
    lemma_lookup_cons("contents"@, JsonV::Arr(spec_bundle_jsons(p.contents)), empty, key);
    assert(spec_lookup(empty, key) is None);
}

/// Decoding the JSON form of a manifest gives back the manifest in every
/// field, absent optional fields staying absent: the tree-level half of the
/// save-then-load round trip.  The text-level half, that parsing inverts
/// pretty-printing, is stated by the printer's and parser's exact contracts
/// and exercised by the tests.
pub proof fn lemma_package_round_trip(p: PackageFileV)
    ensures
        spec_package_of(spec_package_json(p)) == Ok::<PackageFileV, ManifestError>(p),
{
    reveal_strlit("name");
    reveal_strlit("identifier");
    reveal_strlit("version");
    reveal_strlit("icon");
    reveal_strlit("filetypes");
    reveal_strlit("developer");
    reveal_strlit("publisher");
    reveal_strlit("minimum_hub_version");
    reveal_strlit("entrypoint");
    reveal_strlit("contents");
    assert("name"@.len() == 4 && "identifier"@.len() == 10 && "version"@.len() == 7);
    assert("icon"@.len() == 4 && "filetypes"@.len() == 9 && "developer"@.len() == 9);
    assert("publisher"@.len() == 9 && "minimum_hub_version"@.len() == 19);
    assert("entrypoint"@.len() == 10 && "contents"@.len() == 8);
    assert("name"@[0] == 'n' && "icon"@[0] == 'i');
    assert("filetypes"@[0] == 'f' && "developer"@[0] == 'd' && "publisher"@[0] == 'p');
    assert("identifier"@[0] == 'i' && "entrypoint"@[0] == 'e');
    lemma_package_lookup(p, "name"@);
    lemma_package_lookup(p, "identifier"@);
    lemma_package_lookup(p, "version"@);
    lemma_package_lookup(p, "icon"@);
    lemma_package_lookup(p, "filetypes"@);
    lemma_package_lookup(p, "developer"@);
    lemma_package_lookup(p, "publisher"@);
    lemma_package_lookup(p, "minimum_hub_version"@);
    lemma_package_lookup(p, "entrypoint"@);
    lemma_package_lookup(p, "contents"@);
    lemma_author_round_trip(p.developer);
    lemma_author_round_trip(p.publisher);
    lemma_ipath_round_trip(p.entrypoint);
    lemma_filetypes_round_trip(p.filetypes);
    lemma_bundles_round_trip(p.contents);
    let fields = package_fields(p);
    assert(spec_req_str(fields, "name"@) == Ok::<Seq<char>, ManifestError>(p.name));
    assert(spec_req_str(fields, "identifier"@) == Ok::<Seq<char>, ManifestError>(p.identifier));
    assert(spec_req_str(fields, "version"@) == Ok::<Seq<char>, ManifestError>(p.version));
    assert(spec_opt_str(fields, "icon"@) == Ok::<Option<Seq<char>>, ManifestError>(p.icon));
    assert(spec_opt_str(fields, "minimum_hub_version"@) == Ok::<Option<Seq<char>>, ManifestError>(
        p.minimum_hub_version,
    ));
}

/// A manifest object without a `"version"` member is rejected as a schema
/// violation.
pub proof fn lemma_missing_version_rejected(fields: Seq<(Seq<char>, JsonV)>)
    requires
        spec_lookup(fields, "version"@) is None,
    ensures
        spec_package_of(JsonV::Obj(fields)) == Err::<PackageFileV, ManifestError>(
            ManifestError::ParseError,
        ),
{
}

} // verus!



