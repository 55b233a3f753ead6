//! Addresses of the image registry and the choice of its access token.
use vstd::prelude::*;

verus! {

/// The address that grants a pull token for `repository`.
pub open spec fn token_url_of(repository: Seq<char>) -> Seq<char> {
    "https://auth.docker.io/token?service=registry.docker.io&scope=repository:"@ + repository
        + ":pull"@
}

/// The address of the manifest of `repository` at `tag`.
pub open spec fn manifest_url_of(repository: Seq<char>, tag: Seq<char>) -> Seq<char> {
    "https://registry-1.docker.io/v2/"@ + repository + "/manifests/"@ + tag
}

/// The address of the layer of `repository` with content digest `digest`.
pub open spec fn blob_url_of(repository: Seq<char>, digest: Seq<char>) -> Seq<char> {
    "https://registry-1.docker.io/v2/"@ + repository + "/blobs/"@ + digest
}

/// Returns the address that grants a pull token for `repository`.
pub fn token_url(repository: &str) -> (r: String)
    ensures
        r@ == token_url_of(repository@),
{
    String::from_str("https://auth.docker.io/token?service=registry.docker.io&scope=repository:")
        .concat(repository).concat(":pull")
}

/// Returns the address of the manifest of `repository` at `tag`.
pub fn manifest_url(repository: &str, tag: &str) -> (r: String)
    ensures
        r@ == manifest_url_of(repository@, tag@),
{
    String::from_str("https://registry-1.docker.io/v2/").concat(repository).concat(
        "/manifests/",
    ).concat(tag)
}

/// Returns the address of the layer of `repository` with digest `digest`.
pub fn blob_url(repository: &str, digest: &str) -> (r: String)
    ensures
        r@ == blob_url_of(repository@, digest@),
{
    String::from_str("https://registry-1.docker.io/v2/").concat(repository).concat(
        "/blobs/",
    ).concat(digest)
}

/// The string at `key` of the JSON object that `body` holds, if `body` is
/// JSON text of an object with a string there.
pub uninterp spec fn json_string_at(body: Seq<u8>, key: Seq<char>) -> Option<Seq<char>>;

/// For a JSON object in `body` whose `layers` entry is an array: for each
/// element, the string at its `digest` key, if it has one.
pub uninterp spec fn json_layer_digests(body: Seq<u8>) -> Option<Seq<Option<Seq<char>>>>;

/// The text of an optional string.
pub open spec fn opt_text(o: Option<String>) -> Option<Seq<char>> {
    match o {
        Some(s) => Some(s@),
        None => None,
    }
}

/// Relies on serde_json::from_slice, Value::get and Value::as_str: the string
/// at `key` of a JSON object; `None` when the text is not JSON, is not an
/// object, or holds no string there.
#[verifier::external_body]
fn string_at(body: &[u8], key: &str) -> (r: Option<String>)
    ensures
        opt_text(r) == json_string_at(body@, key@),
{
    let v: serde_json::Value = serde_json::from_slice(body).ok()?;
    v.get(key).and_then(serde_json::Value::as_str).map(String::from)
}

/// Relies on serde_json::from_slice, Value::get, Value::as_array and
/// Value::as_str: the `digest` string of each element of the `layers` array.
#[verifier::external_body]
fn layer_digest_fields(body: &[u8]) -> (r: Option<Vec<Option<String>>>)
    ensures
        r is None <==> json_layer_digests(body@) is None,
        r matches Some(v) ==> json_layer_digests(body@) == Some(
            opt_texts(v@),
        ),
{
    let v: serde_json::Value = serde_json::from_slice(body).ok()?;
    let layers = v.get("layers").and_then(serde_json::Value::as_array)?;
    Some(
        layers.iter().map(
            |l| l.get("digest").and_then(serde_json::Value::as_str).map(String::from),
        ).collect(),
    )
}

/// The text of each optional string.
pub open spec fn opt_texts(l: Seq<Option<String>>) -> Seq<Option<Seq<char>>> {
    l.map_values(|o: Option<String>| opt_text(o))
}

/// The text of each optional string of an optional list.
pub open spec fn layer_texts(layers: Option<Vec<Option<String>>>) -> Option<Seq<Option<Seq<char>>>> {
    match layers {
        Some(l) => Some(opt_texts(l@)),
        None => None,
    }
}

/// The token that a token answer grants: its `token` when there is one, else its `access_token`.
pub open spec fn token_choice(token: Option<Seq<char>>, access_token: Option<Seq<char>>) -> Option<
    Seq<char>,
> {
    match token {
        Some(t) => Some(t),
        None => access_token,
    }
}

/// The token answer held neither a `token` nor an `access_token` string.
#[derive(Clone, Copy, Debug, PartialEq, Eq, Structural)]
pub struct MissingToken;

/// Picks the token of a token answer: its `token` field when that is a string,
/// else its `access_token` field.
pub fn select_token(token: Option<String>, access_token: Option<String>) -> (r: Result<
    String,
    MissingToken,
>)
    ensures
        r matches Ok(x) ==> token_choice(opt_text(token), opt_text(access_token)) == Some(x@),
        r is Err <==> token_choice(opt_text(token), opt_text(access_token)) is None,
{
    match token {
        Some(t) => Ok(t),
        None => match access_token {
            Some(a) => Ok(a),
            None => Err(MissingToken),
        },
    }
}

/// Returns the token granted by the registry's token answer `body`.
pub fn access_token(body: &[u8]) -> (r: Result<String, MissingToken>)
    ensures
        r matches Ok(x) ==> token_choice(
            json_string_at(body@, "token"@),
            json_string_at(body@, "access_token"@),
        ) == Some(x@),
        r is Err <==> token_choice(
            json_string_at(body@, "token"@),
            json_string_at(body@, "access_token"@),
        ) is None,
{
    let token = string_at(body, "token");
    let access = string_at(body, "access_token");
    select_token(token, access)
}

/// Why an image manifest gives no list of layers.
#[derive(Clone, Copy, Debug, PartialEq, Eq, Structural)]
pub enum ManifestError {
    /// It has no `layers` array.
    NoLayers,
    /// Layer `index` has no `digest` string.
    NoDigest { index: usize },
}

/// The digests of the layers, or the first layer that has none.
pub open spec fn digests_of(layers: Seq<Option<Seq<char>>>) -> Result<Seq<Seq<char>>, ManifestError>
    decreases layers.len(),
{
    if layers.len() == 0 {
        Ok(Seq::empty())
    } else {
        match digests_of(layers.drop_last()) {
            Err(e) => Err(e),
            Ok(prev) => match layers.last() {
                None => Err(ManifestError::NoDigest { index: (layers.len() - 1) as usize }),
                Some(d) => Ok(prev.push(d)),
            },
        }
    }
}

/// The layer digests of a manifest, from what its `layers` array holds.
pub open spec fn manifest_digests(layers: Option<Seq<Option<Seq<char>>>>) -> Result<
    Seq<Seq<char>>,
    ManifestError,
> {
    match layers {
        None => Err(ManifestError::NoLayers),
        Some(l) => digests_of(l),
    }
}

/// The texts of a list of strings.
pub open spec fn texts(v: Seq<String>) -> Seq<Seq<char>> {
    v.map_values(|s: String| s@)
}

proof fn lemma_digest_refusal_kept(l: Seq<Option<Seq<char>>>, j: int)
    requires
        0 <= j <= l.len(),
        digests_of(l.take(j)) is Err,
    ensures
        digests_of(l) == digests_of(l.take(j)),
    decreases l.len() - j,
{
    if j == l.len() {
        assert(l.take(j) =~= l);
    } else {
        assert(l.drop_last().take(j) =~= l.take(j));
        lemma_digest_refusal_kept(l.drop_last(), j);
    }
}

fn digests_from_list(layers: Vec<Option<String>>) -> (r: Result<Vec<String>, ManifestError>)
    ensures
        r matches Ok(v) ==> digests_of(opt_texts(layers@)) == Ok::<Seq<Seq<char>>, ManifestError>(
            texts(v@),
        ),
        r matches Err(e) ==> digests_of(opt_texts(layers@)) == Err::<Seq<Seq<char>>, ManifestError>(
            e,
        ),
{
    let ghost all = opt_texts(layers@);
    let mut out: Vec<String> = Vec::new();
    let mut k: usize = 0;
    assert(all.take(0) =~= Seq::<Option<Seq<char>>>::empty());
    assert(texts(out@) =~= Seq::<Seq<char>>::empty());
    while k < layers.len()
        invariant
            k <= layers@.len(),
            all == opt_texts(layers@),
            digests_of(all.take(k as int)) == Ok::<Seq<Seq<char>>, ManifestError>(texts(out@)),
        decreases layers@.len() - k,
    {
        proof {
            assert(all.take(k + 1).drop_last() =~= all.take(k as int));
            assert(all.take(k + 1).last() == opt_text(layers@[k as int]));
        }
        match &layers[k] {
            None => {
                proof {
                    assert(all.take(k + 1).last() is None);
                    assert(digests_of(all.take(k + 1)) == Err::<Seq<Seq<char>>, ManifestError>(
                        ManifestError::NoDigest { index: k },
                    ));
                    lemma_digest_refusal_kept(all, k + 1);
                    assert(digests_of(all) == Err::<Seq<Seq<char>>, ManifestError>(
                        ManifestError::NoDigest { index: k },
                    ));
                }
                return Err(ManifestError::NoDigest { index: k });
            },
            Some(d) => {
                let ghost before = texts(out@);
                out.push(d.clone());
                assert(texts(out@) =~= before.push(d@));
            },
        }
        k = k + 1;
    }
    assert(all.take(k as int) =~= all);
    Ok(out)
}

/// Returns the digests of the layers, given the `digest` field of each
/// element of a manifest's `layers` array (`None` when it has no such array).
pub fn collect_digests(layers: Option<Vec<Option<String>>>) -> (r: Result<Vec<String>, ManifestError>)
    ensures
        r matches Ok(v) ==> manifest_digests(layer_texts(layers)) == Ok::<Seq<Seq<char>>, ManifestError>(texts(v@)),
        r matches Err(e) ==> manifest_digests(layer_texts(layers)) == Err::<Seq<Seq<char>>, ManifestError>(e),
{
    match layers {
        None => Err(ManifestError::NoLayers),
        Some(list) => digests_from_list(list),
    }
}

/// Returns the layer digests listed by the image manifest `body`.
pub fn layer_digests(body: &[u8]) -> (r: Result<Vec<String>, ManifestError>)
    ensures
        r matches Ok(v) ==> manifest_digests(json_layer_digests(body@)) == Ok::<
            Seq<Seq<char>>,
            ManifestError,
        >(texts(v@)),
        r matches Err(e) ==> manifest_digests(json_layer_digests(body@)) == Err::<
            Seq<Seq<char>>,
            ManifestError,
        >(e),
{
    let fields = layer_digest_fields(body);
    collect_digests(fields)
}

} // verus!
