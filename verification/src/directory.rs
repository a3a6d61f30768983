//! The directory client's decision logic: cursor-paginated listing,
//! authentication outcomes, and extraction of external identities from the
//! user records of a department walk.
//!
//! The HTTP transport itself lives outside the library; it hands every
//! response in as plain values and performs the actions these functions
//! decide.

use vstd::prelude::*;
use vstd::string::*;

verus! {

/// The errors that abort a crawl, fail-fast: a network failure, a listing
/// call answered with a non-zero application code, or an authentication
/// call answered with one.
#[derive(Debug, PartialEq, Eq)]
pub enum CrawlError {
    Transport { msg: String },
    Api { code: i64, msg: String },
    Auth { code: i64, msg: String },
}

/// One page of a paginated listing response, as plain values: the
/// application code with its message, the continuation cursor, and the
/// items (an absent list means an empty one).
pub struct Page<T> {
    pub code: i64,
    pub msg: String,
    pub has_more: bool,
    pub page_token: Option<String>,
    pub items: Option<Vec<T>>,
}

/// The items a page carries; an absent list is an empty one.
pub open spec fn page_items<T>(p: Page<T>) -> Seq<T> {
    match p.items {
        None => Seq::<T>::empty(),
        Some(v) => v@,
    }
}

/// The cursor with which the listing continues after `p`: present only
/// when the page announces more results and supplies a token.
pub open spec fn page_cursor<T>(p: Page<T>) -> Option<Seq<char>> {
    if p.has_more {
        match p.page_token {
            None => None,
            Some(t) => Some(t@),
        }
    } else {
        None
    }
}

/// Folds one listing page into the accumulated items: a non-zero
/// application code aborts with the page's own code and message and leaves
/// the accumulator untouched; otherwise the page's items are appended and
/// the continuation cursor, if any, is handed back.
pub fn absorb_page<T>(acc: &mut Vec<T>, page: Page<T>) -> (r: Result<Option<String>, CrawlError>)
    ensures
        match r {
            Ok(cursor) => page.code == 0 && final (acc)@ == old(acc)@ + page_items(page)
                && (match cursor {
                None => page_cursor(page) is None,
                Some(t) => page_cursor(page) == Some(t@),
            }),
            Err(e) => page.code != 0 && final (acc)@ == old(acc)@ && (e matches CrawlError::Api {
                code,
                msg,
            } && code == page.code && msg@ == page.msg@),
        },
{
    let Page { code, msg, has_more, page_token, items } = page;
    if code != 0 {
        return Err(CrawlError::Api { code, msg });
    }
    match items {
        None => {
            proof {
                assert(old(acc)@ + page_items(page) =~= old(acc)@);
            }
        },
        Some(mut v) => {
            acc.append(&mut v);
        },
    }
    if has_more {
        Ok(page_token)
    } else {
        Ok(None)
    }
}

/// The outcome of the authentication call, from its response as plain
/// values: a non-zero application code is an authentication failure
/// carrying the response's code and message, otherwise the bearer token is
/// handed back.
pub fn auth_token(code: i64, msg: String, tenant_access_token: String) -> (r: Result<
    String,
    CrawlError,
>)
    ensures
        match r {
            Ok(t) => code == 0 && t@ == tenant_access_token@,
            Err(e) => code != 0 && (e matches CrawlError::Auth { code: c, msg: m } && c == code
                && m@ == msg@),
        },
{
    if code == 0 {
        Ok(tenant_access_token)
    } else {
        Err(CrawlError::Auth { code, msg })
    }
}

/// A department of the directory tree, of which only the id is consumed.
pub struct Department {
    pub open_department_id: String,
}

/// The ids of the listed departments, in order.
pub fn department_ids(departments: &Vec<Department>) -> (r: Vec<String>)
    ensures
        r@.len() == departments@.len(),
        forall|i: int| 0 <= i < r@.len() ==> #[trigger] r@[i]@ == departments@[i].open_department_id@,
{
    let n = departments.len();
    let mut r: Vec<String> = Vec::new();
    let mut i: usize = 0;
    while i < n
        invariant
            i <= n,
            n == departments@.len(),
            r@.len() == i,
            forall|k: int|
                0 <= k < i ==> #[trigger] r@[k]@ == departments@[k].open_department_id@,
        decreases n - i,
    {
        r.push(departments[i].open_department_id.clone());
        i = i + 1;
    }
    r
}

/// The text value of one custom attribute of a user record.
pub struct AttrValue {
    pub text: String,
}

/// One custom attribute of a user record: an attribute id and its value.
pub struct CustomAttr {
    pub id: String,
    pub value: AttrValue,
}

/// A user record of a department listing, reduced to its custom
/// attributes; a user may carry none at all.
pub struct User {
    pub custom_attrs: Option<Vec<CustomAttr>>,
}

/// The attribute texts of one user whose attribute id matches `attr_id`,
/// in order.
pub open spec fn attr_texts(attrs: Seq<CustomAttr>, attr_id: Seq<char>) -> Seq<Seq<char>>
    decreases attrs.len(),
{
    if attrs.len() == 0 {
        Seq::<Seq<char>>::empty()
    } else {
        (if attrs[0].id@ == attr_id {
            seq![attrs[0].value.text@]
        } else {
            Seq::<Seq<char>>::empty()
        }) + attr_texts(attrs.skip(1), attr_id)
    }
}

/// The identity values of all users, in order: for each user, the texts of
/// its attributes matching `attr_id`; users without the attribute
/// contribute nothing.
pub open spec fn users_logins(users: Seq<User>, attr_id: Seq<char>) -> Seq<Seq<char>>
    decreases users.len(),
{
    if users.len() == 0 {
        Seq::<Seq<char>>::empty()
    } else {
        (match users[0].custom_attrs {
            None => Seq::<Seq<char>>::empty(),
            Some(v) => attr_texts(v@, attr_id),
        }) + users_logins(users.skip(1), attr_id)
    }
}

/// Extracts the external-identity values from the user records: the texts
/// of every custom attribute whose id is `attr_id`. Users lacking the
/// attribute are silently skipped; that is not an error.
pub fn extract_github_logins(users: &Vec<User>, attr_id: &str) -> (r: Vec<String>)
    ensures
        r@.len() == users_logins(users@, attr_id@).len(),
        forall|k: int|
            0 <= k < r@.len() ==> #[trigger] r@[k]@ == users_logins(users@, attr_id@)[k],
{
    let ghost total = users_logins(users@, attr_id@);
    let n = users.len();
    let mut r: Vec<String> = Vec::new();
    let mut i: usize = 0;
    proof {
        assert(users@.skip(0) =~= users@);
        assert(total.skip(0) =~= total);
    }
    while i < n
        invariant
            i <= n,
            n == users@.len(),
            total == users_logins(users@, attr_id@),
            forall|k: int| 0 <= k < r@.len() ==> #[trigger] r@[k]@ == total[k],
            r@.len() <= total.len(),
            users_logins(users@.skip(i as int), attr_id@) == total.skip(r@.len() as int),
        decreases n - i,
    {
        proof {
            assert(users@.skip(i as int)[0] == users@[i as int]);
            assert(users@.skip(i as int).skip(1) =~= users@.skip(i + 1));
        }
        match &users[i].custom_attrs {
            None => {
                proof {
                    assert(Seq::<Seq<char>>::empty() + users_logins(
                        users@.skip(i + 1),
                        attr_id@,
                    ) =~= users_logins(users@.skip(i + 1), attr_id@));
                }
            },
            Some(attrs) => {
                let m = attrs.len();
                let mut j: usize = 0;
                proof {
                    assert(attrs@.skip(0) =~= attrs@);
                    assert(attr_texts(attrs@, attr_id@) + users_logins(
                        users@.skip(i + 1),
                        attr_id@,
                    ) =~= total.skip(r@.len() as int));
                }
                while j < m
                    invariant
                        j <= m,
                        m == attrs@.len(),
                        total == users_logins(users@, attr_id@),
                        forall|k: int| 0 <= k < r@.len() ==> #[trigger] r@[k]@ == total[k],
                        r@.len() <= total.len(),
                        attr_texts(attrs@.skip(j as int), attr_id@) + users_logins(
                            users@.skip(i + 1),
                            attr_id@,
                        ) == total.skip(r@.len() as int),
                    decreases m - j,
                {
                    proof {
                        assert(attrs@.skip(j as int)[0] == attrs@[j as int]);
                        assert(attrs@.skip(j as int).skip(1) =~= attrs@.skip(j + 1));
                    }
                    let a = &attrs[j];
                    if crate::split::str_eq(a.id.as_str(), attr_id) {
                        let ghost r0len = r@.len() as int;
                        r.push(a.value.text.clone());
                        proof {
                            let head = seq![attrs@[j as int].value.text@];
                            let tail = attr_texts(attrs@.skip(j + 1), attr_id@) + users_logins(
                                users@.skip(i + 1),
                                attr_id@,
                            );
                            assert(head + tail =~= total.skip(r0len));
                            assert(total.skip(r0len)[0] == total[r0len]);
                            assert(r@[r0len]@ == total[r0len]);
                            assert((head + tail).skip(1) =~= tail);
                            assert(total.skip(r0len).skip(1) =~= total.skip(r0len + 1));
                        }
                    } else {
                        proof {
                            assert(Seq::<Seq<char>>::empty() + (attr_texts(
                                attrs@.skip(j + 1),
                                attr_id@,
                            ) + users_logins(users@.skip(i + 1), attr_id@)) =~= attr_texts(
                                attrs@.skip(j + 1),
                                attr_id@,
                            ) + users_logins(users@.skip(i + 1), attr_id@));
                        }
                    }
                    j = j + 1;
                }
                proof {
                    assert(attrs@.skip(m as int).len() == 0);
                    assert(Seq::<Seq<char>>::empty() + users_logins(
                        users@.skip(i + 1),
                        attr_id@,
                    ) =~= users_logins(users@.skip(i + 1), attr_id@));
                }
            },
        }
        i = i + 1;
    }
    proof {
        assert(users@.skip(n as int).len() == 0);
        assert(total.skip(r@.len() as int).len() == 0);
    }
    r
}

/// The configuration of a directory client, passed in explicitly at
/// construction: the API host, the credential pair of the authentication
/// call, and the custom-attribute id that carries the external identity.
pub struct DirectoryConfig {
    pub base_url: String,
    pub app_id: String,
    pub app_secret: String,
    pub github_login_attr_id: String,
}

/// The default custom-attribute id under which the directory stores an
/// identity's external login.
pub fn github_login_attr_id() -> (r: &'static str)
    ensures
        r@ == "C-6934211695879389211"@,
{
    "C-6934211695879389211"
}

/// The full URL of a resource: the base joined to the resource path.
pub fn request_url(base_url: &str, uri: &str) -> (r: String)
    ensures
        r@ == base_url@ + seq!['/'] + uri@,
{
    let mut r = String::from_str(base_url);
    r.append("/");
    r.append(uri);
    proof {
        reveal_strlit("/");
        assert(r@ =~= base_url@ + seq!['/'] + uri@);
    }
    r
}

/// The query of the department listing: a root-only traversal with the
/// recursive fetch flag, so the server itself expands the subtree.
pub fn department_list_query() -> (r: Vec<(String, String)>)
    ensures
        r@.len() == 2,
        r@[0].0@ == "fetch_child"@ && r@[0].1@ == "true"@,
        r@[1].0@ == "parent_department_id"@ && r@[1].1@ == "0"@,
{
    let mut r: Vec<(String, String)> = Vec::new();
    r.push((String::from_str("fetch_child"), String::from_str("true")));
    r.push((String::from_str("parent_department_id"), String::from_str("0")));
    r
}

/// The query of the user listing for one department.
pub fn user_list_query(department_id: &str) -> (r: Vec<(String, String)>)
    ensures
        r@.len() == 1,
        r@[0].0@ == "department_id"@ && r@[0].1@ == department_id@,
{
    let mut r: Vec<(String, String)> = Vec::new();
    r.push((String::from_str("department_id"), String::from_str(department_id)));
    r
}

/// The crawl operations the reconciliation driver needs: the departments
/// of the directory, and the external identities of their members.
/// Implementations live with the HTTP transport, outside the verified
/// library, and return either the collected values or the first error of
/// the walk (fail-fast: no partial result).
pub trait Crawl {
    fn list_github_logins(&self) -> Result<Vec<String>, CrawlError>;

    fn list_departments(&self) -> Result<Vec<String>, CrawlError>;
}

} // verus!
