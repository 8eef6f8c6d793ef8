//! The settings of the OpenBao/Vault client, from the environment: each
//! OpenBao variable takes precedence over its Vault counterpart.
use vstd::prelude::*;

use crate::errors::AppError;
use crate::text::{trim_white_space, trimmed};

verus! {

pub open spec fn opt_view(o: Option<String>) -> Option<Seq<char>> {
    match o {
        Some(s) => Some(s@),
        None => None,
    }
}

/// The OpenBao value when it is set, else the Vault one.
pub open spec fn preferred(bao: Option<String>, vault: Option<String>) -> Option<Seq<char>> {
    match bao {
        Some(b) => Some(b@),
        None => opt_view(vault),
    }
}

/// Where the client takes its token from.
pub enum TokenSource {
    /// The token set in the environment.
    Given(String),
    /// The token file at this path.
    File(String),
}

/// The token file in the home directory `home` (`~` when unknown).
pub open spec fn token_file_path(home: Option<String>) -> Seq<char> {
    match home {
        Some(h) => h@ + "/.vault-token"@,
        None => "~"@ + "/.vault-token"@,
    }
}

/// The token of the environment (empty when unset), or else the token file.
pub open spec fn token_source_of(
    bao: Option<String>,
    vault: Option<String>,
    home: Option<String>,
) -> Result<Seq<char>, Seq<char>> {
    match preferred(bao, vault) {
        Some(t) if t.len() > 0 => Ok(t),
        _ => Err(token_file_path(home)),
    }
}

fn pick(bao: Option<String>, vault: Option<String>) -> (res: Option<String>)
    ensures
        opt_view(res) == preferred(bao, vault),
{
    match bao {
        Some(b) => Some(b),
        None => vault,
    }
}

/// The server address: `BAO_ADDR`, else `VAULT_ADDR`; an error when
/// neither is set.
pub fn resolve_address(bao_addr: Option<String>, vault_addr: Option<String>) -> (res: Result<
    String,
    AppError,
>)
    ensures
        match preferred(bao_addr, vault_addr) {
            Some(a) => res matches Ok(r) && r@ == a,
            None => res == Err::<String, AppError>(AppError::AddressNotSet),
        },
{
    match pick(bao_addr, vault_addr) {
        Some(a) => Ok(a),
        None => Err(AppError::AddressNotSet),
    }
}

/// The token: `BAO_TOKEN`, else `VAULT_TOKEN`; when that is unset or
/// empty, the file `.vault-token` in the home directory.
pub fn choose_token(
    bao_token: Option<String>,
    vault_token: Option<String>,
    home: Option<String>,
) -> (res: TokenSource)
    ensures
        match token_source_of(bao_token, vault_token, home) {
            Ok(t) => res matches TokenSource::Given(g) && g@ == t,
            Err(p) => res matches TokenSource::File(f) && f@ == p,
        },
{
    let token = pick(bao_token, vault_token);
    match token {
        Some(t) => {
            if t.as_str().unicode_len() > 0 {
                return TokenSource::Given(t);
            }
        },
        None => {},
    }
    let dir = match home {
        Some(h) => h,
        None => String::from_str("~"),
    };
    TokenSource::File(dir.concat("/.vault-token"))
}

/// The token read from the token file (`None` when it could not be read),
/// without white space at either end.
pub fn token_from_file(contents: Option<String>) -> (res: Result<String, AppError>)
    ensures
        match contents {
            Some(c) => res matches Ok(t) && t@ == trimmed(c@),
            None => res == Err::<String, AppError>(AppError::TokenNotFound),
        },
{
    match contents {
        Some(c) => Ok(trim_white_space(c.as_str())),
        None => Err(AppError::TokenNotFound),
    }
}

/// The namespace: `BAO_NAMESPACE`, else `VAULT_NAMESPACE`, else `root`.
pub fn resolve_namespace(bao_namespace: Option<String>, vault_namespace: Option<String>) -> (res:
    String)
    ensures
        res@ == match preferred(bao_namespace, vault_namespace) {
            Some(n) => n,
            None => "root"@,
        },
{
    match pick(bao_namespace, vault_namespace) {
        Some(n) => n,
        None => String::from_str("root"),
    }
}


/// An OpenBao variable that is set is used whatever its Vault counterpart
/// holds; only when it is unset does the Vault variable count, and when
/// both are unset there is no value.
pub proof fn lemma_openbao_takes_precedence(bao: String, vault: Option<String>, other: String)
    ensures
        preferred(Some(bao), vault) == Some(bao@),
        preferred(None, Some(other)) == Some(other@),
        preferred(None, None) is None,
{
}

/// A non-empty token in the environment is used: `BAO_TOKEN` when set and
/// non-empty, whatever `VAULT_TOKEN` and the home directory are; else a
/// non-empty `VAULT_TOKEN` when `BAO_TOKEN` is unset. An empty or missing
/// token leads to the file `.vault-token` in the home directory, `~` when
/// that is unknown.
pub proof fn lemma_token_choice(
    token: String,
    vault: Option<String>,
    home: Option<String>,
    dir: String,
)
    ensures
        token@.len() > 0 ==> token_source_of(Some(token), vault, home) == Ok::<
            Seq<char>,
            Seq<char>,
        >(token@),
        token@.len() > 0 ==> token_source_of(None, Some(token), home) == Ok::<
            Seq<char>,
            Seq<char>,
        >(token@),
        token@.len() == 0 ==> token_source_of(Some(token), vault, Some(dir)) == Err::<
            Seq<char>,
            Seq<char>,
        >(dir@ + "/.vault-token"@),
        token_source_of(None, None, Some(dir)) == Err::<Seq<char>, Seq<char>>(
            dir@ + "/.vault-token"@,
        ),
        token_source_of(None, None, None) == Err::<Seq<char>, Seq<char>>("~/.vault-token"@),
{
    reveal_strlit("/.vault-token");
    reveal_strlit("~/.vault-token");
    reveal_strlit("~");
    assert("~"@ + "/.vault-token"@ =~= "~/.vault-token"@);
}

} // verus!
