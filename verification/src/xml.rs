//! Building the XML document for a [`SophosRequest`].

use vstd::prelude::*;
use crate::error::{Error, ErrorView};
use crate::json::{jget, jinsert, members_xml, push_members_xml, FieldMap, Json, Value};
use crate::request::{Action, RequestView, SophosConnection, SophosRequest};
use crate::text::{
    debug_quoted, debug_str, escape, push_str, str_eq, string_of, tag_error, trim, trim_str,
    valid_tag, validate_tag, xml_escape,
};

verus! {

/// The login element: user name and password, both escaped.
pub open spec fn login_xml(user: Seq<char>, password: Seq<char>) -> Seq<char> {
    "<Login><Username>"@ + escape(user) + "</Username><Password>"@ + escape(password)
        + "</Password></Login>"@
}

/// A `Get` of `resource`, filtered on `key = name` when a name is given.
pub open spec fn get_xml(resource: Seq<char>, name: Option<Seq<char>>, key: Seq<char>) -> Seq<char> {
    match name {
        Some(n) => "<Get><"@ + resource + "><Filter><key name=\""@ + key + "\" criteria=\"=\">"@
            + escape(n) + "</key></Filter></"@ + resource + "></Get>"@,
        None => "<Get><"@ + resource + "/></Get>"@,
    }
}

/// The members a `Set` writes: the payload object (nothing for `null`), plus `key = name`
/// when a name is given and the payload has no such member.
pub open spec fn set_fields(payload: Json, name: Option<Seq<char>>, key: Seq<char>) -> Result<
    Seq<(Seq<char>, Json)>,
    Seq<char>,
> {
    let base: core::result::Result<Seq<(Seq<char>, Json)>, Seq<char>> = match payload {
        Json::Null => Ok(Seq::empty()),
        Json::Object(es) => Ok(es),
        _ => Err("payload must be a JSON object"@),
    };
    match base {
        Err(e) => Err(e),
        Ok(es) => match name {
            Some(n) => if jget(es, key) is Some {
                Ok(es)
            } else {
                Ok(jinsert(es, key, Json::Str(n)))
            },
            None => Ok(es),
        },
    }
}

/// A `Set` with `operation` of the members [`set_fields`] gives.
pub open spec fn set_xml(
    operation: Seq<char>,
    resource: Seq<char>,
    name: Option<Seq<char>>,
    key: Seq<char>,
    payload: Json,
) -> Result<Seq<char>, Seq<char>> {
    match set_fields(payload, name, key) {
        Err(e) => Err(e),
        Ok(fields) => match members_xml(fields) {
            Err(e) => Err(e),
            Ok(inner) => Ok(
                "<Set operation=\""@ + operation + "\"><"@ + resource + ">"@ + inner + "</"@
                    + resource + "></Set>"@,
            ),
        },
    }
}

/// A `Remove` of the object `key = name`; a name is required.
pub open spec fn remove_xml(resource: Seq<char>, name: Option<Seq<char>>, key: Seq<char>) -> Result<
    Seq<char>,
    Seq<char>,
> {
    match name {
        Some(n) => Ok(
            "<Remove><"@ + resource + "><"@ + key + ">"@ + escape(n) + "</"@ + key + "></"@ + resource
                + "></Remove>"@,
        ),
        None => Err("delete requires object_name"@),
    }
}

/// A `Set` operation the builder accepts.
pub open spec fn valid_set_operation(op: Seq<char>) -> bool {
    op == "add"@ || op == "update"@ || op == "set"@
}

/// The `Set` operation used for `action` when the request names none.
pub open spec fn operation_for(action: Action, given: Option<Seq<char>>) -> Seq<char> {
    match given {
        Some(o) => o,
        None => if action is Create {
            "add"@
        } else {
            "update"@
        },
    }
}

/// The whole request document for `request` sent with `connection`'s login, or the
/// message of the first check that fails: the resource tag, the object key tag, the
/// `Set` operation, a blank object name, then the body.
pub open spec fn request_xml_of(connection: SophosConnection, request: RequestView) -> Result<
    Seq<char>,
    Seq<char>,
> {
    let resource = request.resource;
    let name = request.object_name;
    let key = match request.object_key {
        Some(k) => k,
        None => "Name"@,
    };
    if !valid_tag(resource) {
        Err(tag_error(resource))
    } else if request.object_key is Some && !valid_tag(key) {
        Err(tag_error(key))
    } else if request.set_operation is Some && !valid_set_operation(request.set_operation->Some_0) {
        Err("invalid Set operation "@ + debug_quoted(request.set_operation->Some_0))
    } else if name is Some && trim(name->Some_0).len() == 0 {
        Err("object_name must not be empty"@)
    } else {
        let body: core::result::Result<Seq<char>, Seq<char>> = match request.action {
            Action::Read => Ok(get_xml(resource, name, key)),
            Action::Create | Action::Update => set_xml(
                operation_for(request.action, request.set_operation),
                resource,
                name,
                key,
                request.payload,
            ),
            Action::Delete => remove_xml(resource, name, key),
            Action::RawXml => raw_body(request.payload),
        };
        match body {
            Err(e) => Err(e),
            Ok(b) => Ok(
                "<Request>"@ + login_xml(connection.username@, connection.password@) + b
                    + "</Request>"@,
            ),
        }
    }
}

/// Builds the XML document for `request`, logging in as `connection`'s user.
pub fn build_request_xml(connection: &SophosConnection, request: &SophosRequest) -> (r: crate::error::Result<String>)
    ensures
        match request_xml_of(*connection, request@) {
            Ok(x) => r matches Ok(s) && s@ == x,
            Err(m) => r matches Err(e) && e@ == ErrorView::InvalidRequest(m),
        },
{
    match validate_tag(request.resource.as_str()) {
        Ok(()) => {},
        Err(m) => return Err(Error::invalid(m)),
    }
    if let Some(k) = &request.object_key {
        match validate_tag(k.as_str()) {
            Ok(()) => {},
            Err(m) => return Err(Error::invalid(m)),
        }
    }
    if let Some(op) = &request.set_operation {
        if !(str_eq(op.as_str(), "add") || str_eq(op.as_str(), "update") || str_eq(op.as_str(), "set")) {
            let mut m = "invalid Set operation ".to_owned();
            let q = debug_str(op.as_str());
            m.append(q.as_str());
            return Err(Error::invalid(m));
        }
    }
    if let Some(n) = &request.object_name {
        let t = trim_str(n.as_str());
        if t.unicode_len() == 0 {
            return Err(Error::invalid("object_name must not be empty".to_owned()));
        }
    }
    let key: &str = match &request.object_key {
        Some(k) => k.as_str(),
        None => "Name",
    };
    let mut out: Vec<char> = Vec::new();
    push_str(&mut out, "<Request>");
    push_login(&mut out, connection.username.as_str(), connection.password.as_str());
    let ghost prefix = out@;
    let name: Option<&str> = match &request.object_name {
        Some(n) => Some(n.as_str()),
        None => None,
    };
    let body = match request.action {
        Action::Read => {
            push_get(&mut out, request.resource.as_str(), name, key);
            Ok(())
        },
        Action::Create | Action::Update => {
            let op: &str = match &request.set_operation {
                Some(o) => o.as_str(),
                None => if request.action == Action::Create {
                    "add"
                } else {
                    "update"
                },
            };
            push_set(&mut out, op, request.resource.as_str(), name, key, &request.payload)
        },
        Action::Delete => push_remove(&mut out, request.resource.as_str(), name, key),
        Action::RawXml => push_raw(&mut out, &request.payload),
    };
    match body {
        Ok(()) => {},
        Err(m) => return Err(Error::invalid(m)),
    }
    push_str(&mut out, "</Request>");
    Ok(string_of(out.as_slice()))
}

/// The body of a raw request: its payload text as it stands.
pub open spec fn raw_body(payload: Json) -> core::result::Result<Seq<char>, Seq<char>> {
    match payload {
        Json::Str(x) => Ok(x),
        _ => Err("raw XML payload must be a string"@),
    }
}

/// Appends [`raw_body`] when it succeeds.
fn push_raw(out: &mut Vec<char>, payload: &Value) -> (r: core::result::Result<(), String>)
    ensures
        match raw_body(payload@) {
            Ok(x) => r is Ok && final(out)@ == old(out)@ + x,
            Err(m) => r matches Err(e) && e@ == m,
        },
{
    match payload {
        Value::String(x) => {
            push_str(out, x.as_str());
            Ok(())
        },
        _ => Err("raw XML payload must be a string".to_owned()),
    }
}

/// Appends [`login_xml`].
fn push_login(out: &mut Vec<char>, user: &str, password: &str)
    ensures
        final(out)@ == old(out)@ + login_xml(user@, password@),
{
    push_str(out, "<Login><Username>");
    let u = xml_escape(user);
    push_str(out, u.as_str());
    push_str(out, "</Username><Password>");
    let p = xml_escape(password);
    push_str(out, p.as_str());
    push_str(out, "</Password></Login>");
    assert(final(out)@ =~= old(out)@ + login_xml(user@, password@));
}

/// The views of an optional string slice.
pub open spec fn opt_str_view(o: Option<&str>) -> Option<Seq<char>> {
    match o {
        Some(s) => Some(s@),
        None => None,
    }
}

/// Appends [`get_xml`].
fn push_get(out: &mut Vec<char>, resource: &str, name: Option<&str>, key: &str)
    ensures
        final(out)@ == old(out)@ + get_xml(resource@, opt_str_view(name), key@),
{
    match name {
        Some(n) => {
            push_str(out, "<Get><");
            push_str(out, resource);
            push_str(out, "><Filter><key name=\"");
            push_str(out, key);
            push_str(out, "\" criteria=\"=\">");
            let e = xml_escape(n);
            push_str(out, e.as_str());
            push_str(out, "</key></Filter></");
            push_str(out, resource);
            push_str(out, "></Get>");
        },
        None => {
            push_str(out, "<Get><");
            push_str(out, resource);
            push_str(out, "/></Get>");
        },
    }
    assert(final(out)@ =~= old(out)@ + get_xml(resource@, opt_str_view(name), key@));
}

/// Appends [`remove_xml`] when it succeeds.
fn push_remove(out: &mut Vec<char>, resource: &str, name: Option<&str>, key: &str) -> (r: core::result::Result<(), String>)
    ensures
        match remove_xml(resource@, opt_str_view(name), key@) {
            Ok(x) => r is Ok && final(out)@ == old(out)@ + x,
            Err(m) => r matches Err(e) && e@ == m,
        },
{
    match name {
        Some(n) => {
            push_str(out, "<Remove><");
            push_str(out, resource);
            push_str(out, "><");
            push_str(out, key);
            push_str(out, ">");
            let e = xml_escape(n);
            push_str(out, e.as_str());
            push_str(out, "</");
            push_str(out, key);
            push_str(out, "></");
            push_str(out, resource);
            push_str(out, "></Remove>");
            assert(final(out)@ =~= old(out)@ + remove_xml(resource@, opt_str_view(name), key@)->Ok_0);
            Ok(())
        },
        None => Err("delete requires object_name".to_owned()),
    }
}

/// Appends [`set_xml`] when it succeeds.
fn push_set(
    out: &mut Vec<char>,
    operation: &str,
    resource: &str,
    name: Option<&str>,
    key: &str,
    payload: &Value,
) -> (r: core::result::Result<(), String>)
    ensures
        match set_xml(operation@, resource@, opt_str_view(name), key@, payload@) {
            Ok(x) => r is Ok && final(out)@ == old(out)@ + x,
            Err(m) => r matches Err(e) && e@ == m,
        },
{
    let mut fields = match payload {
        Value::Null => FieldMap::new(),
        Value::Object(m) => m.copy(),
        _ => return Err("payload must be a JSON object".to_owned()),
    };
    if let Some(n) = name {
        if !fields.contains_key(key) {
            fields.insert(key.to_owned(), Value::from_str(n));
        }
    }
    let ghost fs = fields@;
    assert(set_fields(payload@, opt_str_view(name), key@) == Ok::<Seq<(Seq<char>, Json)>, Seq<char>>(fs));
    let ghost start = out@;
    push_str(out, "<Set operation=\"");
    push_str(out, operation);
    push_str(out, "\"><");
    push_str(out, resource);
    push_str(out, ">");
    match push_members_xml(out, &fields) {
        Ok(()) => {},
        Err(m) => return Err(m),
    }
    push_str(out, "</");
    push_str(out, resource);
    push_str(out, "></Set>");
    assert(final(out)@ =~= start + set_xml(operation@, resource@, opt_str_view(name), key@, payload@)->Ok_0);
    Ok(())
}

} // verus!
