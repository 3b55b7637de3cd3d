//! Backup, notification and report retention settings.

use vstd::prelude::*;
use crate::api::{
    empty_object, get_outcome, list_outcome, list_view, named_request, opt_result_view,
    read_request, write_outcome, write_view,
};
use crate::client::{Link, exchange, Reply, SophosClient};
use crate::common::name_of;
use crate::error::{Error, ErrorView, Result};
use crate::json::{FieldMap, Value};
use crate::json::{jget, jinsert, Json};
use crate::objects::{
    merged, settings_write, checked_field, field_at, get_object, get_singleton, list_objects,
    object_reader, result_view, settings_outcome, settings_update_outcome, update_singleton,
    validated_field, wrap_all, ApiObject, ObjectView, WrapsObject,
};
use crate::request::{Action, SophosConnection};
use crate::response::ResourceResponse;
use crate::transport::SophosTransport;

verus! {

/// The backup settings.
#[derive(Debug, PartialEq, Eq)]
pub struct BackupSettings {
    inner: ApiObject,
}

impl View for BackupSettings {
    type V = ObjectView;

    closed spec fn view(&self) -> ObjectView {
        self.inner@
    }
}

impl BackupSettings {
    /// The text at the dotted `path` (see [`field_at`]).
    pub fn field(&self, path: &str) -> (r: Option<&str>)
        ensures
            crate::xml::opt_str_view(r) == field_at(self@.fields, path@),
    {
        self.inner.field(path)
    }

    /// All fields.
    pub fn fields(&self) -> (r: &FieldMap)
        ensures
            r@ == self@.fields,
    {
        self.inner.fields()
    }
}

/// The report retention settings.
#[derive(Debug, PartialEq, Eq)]
pub struct ReportsRetention {
    inner: ApiObject,
}

impl View for ReportsRetention {
    type V = ObjectView;

    closed spec fn view(&self) -> ObjectView {
        self.inner@
    }
}

impl ReportsRetention {
    /// The text at the dotted `path` (see [`field_at`]).
    pub fn field(&self, path: &str) -> (r: Option<&str>)
        ensures
            crate::xml::opt_str_view(r) == field_at(self@.fields, path@),
    {
        self.inner.field(path)
    }

    /// All fields.
    pub fn fields(&self) -> (r: &FieldMap)
        ensures
            r@ == self@.fields,
    {
        self.inner.fields()
    }
}

/// A notification.
#[derive(Debug, PartialEq, Eq)]
pub struct Notification {
    inner: ApiObject,
}

impl View for Notification {
    type V = ObjectView;

    closed spec fn view(&self) -> ObjectView {
        self.inner@
    }
}

impl WrapsObject for Notification {
    fn wrap(inner: ApiObject) -> (r: Self) {
        Notification { inner }
    }
}

impl Notification {
    /// The name.
    pub fn name(&self) -> (r: &str)
        ensures
            r@ == self@.name,
    {
        self.inner.name()
    }

    /// The text at the dotted `path` (see [`field_at`]).
    pub fn field(&self, path: &str) -> (r: Option<&str>)
        ensures
            crate::xml::opt_str_view(r) == field_at(self@.fields, path@),
    {
        self.inner.field(path)
    }

    /// All fields.
    pub fn fields(&self) -> (r: &FieldMap)
        ensures
            r@ == self@.fields,
    {
        self.inner.fields()
    }
}

/// An entry of the notification list.
#[derive(Debug, PartialEq, Eq)]
pub struct NotificationListItem {
    inner: ApiObject,
}

impl View for NotificationListItem {
    type V = ObjectView;

    closed spec fn view(&self) -> ObjectView {
        self.inner@
    }
}

impl WrapsObject for NotificationListItem {
    fn wrap(inner: ApiObject) -> (r: Self) {
        NotificationListItem { inner }
    }
}

impl NotificationListItem {
    /// The name.
    pub fn name(&self) -> (r: &str)
        ensures
            r@ == self@.name,
    {
        self.inner.name()
    }

    /// The text at the dotted `path` (see [`field_at`]).
    pub fn field(&self, path: &str) -> (r: Option<&str>)
        ensures
            crate::xml::opt_str_view(r) == field_at(self@.fields, path@),
    {
        self.inner.field(path)
    }

    /// All fields.
    pub fn fields(&self) -> (r: &FieldMap)
        ensures
            r@ == self@.fields,
    {
        self.inner.fields()
    }
}

/// A change to the backup settings: fields under `ScheduleBackup`.
#[derive(Debug, PartialEq, Eq)]
pub struct BackupUpdate {
    fields: FieldMap,
}

impl View for BackupUpdate {
    type V = Seq<(Seq<char>, Json)>;

    closed spec fn view(&self) -> Seq<(Seq<char>, Json)> {
        self.fields@
    }
}

/// The members of the object under `ScheduleBackup` in `fields`, or none.
pub open spec fn schedule_members(fields: Seq<(Seq<char>, Json)>) -> Seq<(Seq<char>, Json)> {
    match jget(fields, "ScheduleBackup"@) {
        Some(Json::Object(m)) => m,
        _ => Seq::empty(),
    }
}

/// `fields` with `value` under `field` (trimmed) inside the object under `ScheduleBackup`,
/// or why that is refused (see [`checked_field`]).
pub open spec fn with_schedule_of(fields: Seq<(Seq<char>, Json)>, field: Seq<char>, value: Json) -> core::result::Result<
    Seq<(Seq<char>, Json)>,
    ErrorView,
> {
    match checked_field(field, value) {
        Err(e) => Err(e),
        Ok(f) => Ok(jinsert(fields, "ScheduleBackup"@, Json::Object(jinsert(schedule_members(fields), f, value)))),
    }
}

impl BackupUpdate {
    /// No change.
    pub fn new() -> (r: BackupUpdate)
        ensures
            r@ == Seq::<(Seq<char>, Json)>::empty(),
    {
        BackupUpdate { fields: FieldMap::new() }
    }

    /// The change with `value` under `field` in the backup schedule (see
    /// [`with_schedule_of`]).
    pub fn with_schedule_field(self, field: &str, value: Value) -> (r: Result<BackupUpdate>)
        ensures
            match with_schedule_of(self@, field@, value@) {
                Ok(f) => r matches Ok(x) && x@ == f,
                Err(e) => r matches Err(x) && x@ == e,
            },
    {
        let f = match validated_field(field, &value) {
            Ok(f) => f,
            Err(e) => return Err(e),
        };
        let mut schedule = match self.fields.get("ScheduleBackup") {
            Some(Value::Object(m)) => m.copy(),
            _ => FieldMap::new(),
        };
        schedule.insert(f, value);
        let mut fields = self.fields;
        fields.insert("ScheduleBackup".to_owned(), Value::Object(schedule));
        Ok(BackupUpdate { fields })
    }
}

impl Default for BackupUpdate {
    /// No change.
    fn default() -> (r: BackupUpdate)
        ensures
            r@ == Seq::<(Seq<char>, Json)>::empty(),
    {
        BackupUpdate::new()
    }
}

/// The system settings operations of a client.
pub struct SystemApi<'a, T> {
    client: &'a SophosClient<T>,
}

impl<'a, T: SophosTransport> SystemApi<'a, T> {
    /// The connection of the client and what its transport answers.
    pub closed spec fn conn(&self) -> Link {
        self.client.conn()
    }
}

impl<T: SophosTransport> SophosClient<T> {
    /// The system settings operations.
    pub fn system(&self) -> (a: SystemApi<'_, T>)
        ensures
            a.conn() == self.conn(),
    {
        SystemApi { client: self }
    }
}

impl<'a, T: SophosTransport> SystemApi<'a, T> {
    /// The backup settings (see [`settings_outcome`]).
    pub fn get_backup(&self) -> (r: Result<BackupSettings>)
        ensures
            exists|reply: Reply|
                result_view(r) == settings_outcome(exchange(self.conn(), read_request("BackupRestore"@), reply), "BackupRestore"@),
    {
        let r = get_singleton(self.client, "BackupRestore");
        let ghost reply = choose|reply: Reply|
            result_view(r) == settings_outcome(exchange(self.client.conn(), read_request("BackupRestore"@), reply), "BackupRestore"@);
        let out = match r {
            Ok(o) => Ok(BackupSettings { inner: o }),
            Err(e) => Err(e),
        };
        assert(result_view(out) == settings_outcome(exchange(self.conn(), read_request("BackupRestore"@), reply), "BackupRestore"@));
        out
    }

    /// Merges `update` into the backup settings read first (see
    /// [`settings_update_outcome`]).
    pub fn update_backup(&self, update: BackupUpdate) -> (r: Result<ResourceResponse>)
        ensures
            exists|first: Reply, second: Reply|
                write_view(r) == #[trigger] settings_update_outcome(self.conn(), "BackupRestore"@, update@, first, second),
    {
        let ghost uv = update@;
        let existing = self.get_backup();
        let ghost first = choose|reply: Reply|
            result_view(existing) == settings_outcome(exchange(self.conn(), read_request("BackupRestore"@), reply), "BackupRestore"@);
        match existing {
            Err(e) => {
                assert(write_view(Err(e)) == settings_update_outcome(self.conn(), "BackupRestore"@, uv, first, first));
                Err(e)
            },
            Ok(settings) => {
                let ghost sv = settings@;
                let r = update_singleton(self.client, "BackupRestore", settings.inner.fields().copy(), &update.fields);
                let ghost second = choose|reply: Reply|
                    write_view(r) == write_outcome(
                        exchange(self.client.conn(), settings_write("BackupRestore"@, Json::Object(merged(sv.fields, uv))), reply),
                        "BackupRestore"@,
                    );
                assert(write_view(r) == settings_update_outcome(self.conn(), "BackupRestore"@, uv, first, second));
                r
            },
        }
    }

    /// Every notification; zero records is an empty list.
    pub fn list_notifications(&self) -> (r: Result<Vec<Notification>>)
        ensures
            exists|reply: Reply|
                list_view(r) == list_outcome(
                    exchange(self.conn(), read_request("Notification"@), reply),
                    "Notification"@,
                    object_reader("Name"@, "notification name"@),
                ),
    {
        let r = list_objects(self.client, "Notification", "Name", "notification name");
        let ghost reply = choose|reply: Reply|
            list_view(r) == list_outcome(exchange(self.client.conn(), read_request("Notification"@), reply), "Notification"@, object_reader("Name"@, "notification name"@));
        match r {
            Ok(objects) => {
                let w = wrap_all::<Notification>(objects);
                assert(list_view(Ok::<Vec<Notification>, Error>(w)) == list_outcome(exchange(self.conn(), read_request("Notification"@), reply), "Notification"@, object_reader("Name"@, "notification name"@)));
                Ok(w)
            },
            Err(e) => Err(e),
        }
    }

    /// The notification named `name` (trimmed); zero records is none.
    pub fn get_notification(&self, name: &str) -> (r: Result<Option<Notification>>)
        ensures
            match name_of("notification name"@, name@) {
                Err(e) => r matches Err(x) && x@ == e,
                Ok(n) => exists|reply: Reply|
                    opt_result_view(r) == get_outcome::<ApiObject>(
                        exchange(self.conn(), named_request(Action::Read, "Notification"@, "Name"@, n, None, empty_object()), reply),
                        "Notification"@,
                        n,
                        object_reader("Name"@, "notification name"@),
                    ),
            },
    {
        let r = get_object(self.client, "Notification", "Name", "notification name", name);
        let ghost go = opt_result_view(r);
        let out = match r {
            Ok(Some(o)) => Ok(Some(Notification::wrap(o))),
            Ok(None) => Ok(None),
            Err(e) => Err(e),
        };
        assert(opt_result_view(out) == go);
        proof {
            match name_of("notification name"@, name@) {
                Ok(n) => {
                    let reply = choose|reply: Reply|
                        go == get_outcome::<ApiObject>(
                            exchange(self.client.conn(), named_request(Action::Read, "Notification"@, "Name"@, n, None, empty_object()), reply),
                            "Notification"@,
                            n,
                            object_reader("Name"@, "notification name"@),
                        );
                    assert(opt_result_view(out) == get_outcome::<ApiObject>(
                        exchange(self.conn(), named_request(Action::Read, "Notification"@, "Name"@, n, None, empty_object()), reply),
                        "Notification"@,
                        n,
                        object_reader("Name"@, "notification name"@),
                    ));
                },
                Err(_) => {},
            }
        }
        out
    }

    /// Every notification list item; zero records is an empty list.
    pub fn list_notification_items(&self) -> (r: Result<Vec<NotificationListItem>>)
        ensures
            exists|reply: Reply|
                list_view(r) == list_outcome(
                    exchange(self.conn(), read_request("NotificationList"@), reply),
                    "NotificationList"@,
                    object_reader("Name"@, "notification list item name"@),
                ),
    {
        let r = list_objects(self.client, "NotificationList", "Name", "notification list item name");
        let ghost reply = choose|reply: Reply|
            list_view(r) == list_outcome(exchange(self.client.conn(), read_request("NotificationList"@), reply), "NotificationList"@, object_reader("Name"@, "notification list item name"@));
        match r {
            Ok(objects) => {
                let w = wrap_all::<NotificationListItem>(objects);
                assert(list_view(Ok::<Vec<NotificationListItem>, Error>(w)) == list_outcome(exchange(self.conn(), read_request("NotificationList"@), reply), "NotificationList"@, object_reader("Name"@, "notification list item name"@)));
                Ok(w)
            },
            Err(e) => Err(e),
        }
    }

    /// The notification list item named `name` (trimmed); zero records is none.
    pub fn get_notification_item(&self, name: &str) -> (r: Result<Option<NotificationListItem>>)
        ensures
            match name_of("notification list item name"@, name@) {
                Err(e) => r matches Err(x) && x@ == e,
                Ok(n) => exists|reply: Reply|
                    opt_result_view(r) == get_outcome::<ApiObject>(
                        exchange(self.conn(), named_request(Action::Read, "NotificationList"@, "Name"@, n, None, empty_object()), reply),
                        "NotificationList"@,
                        n,
                        object_reader("Name"@, "notification list item name"@),
                    ),
            },
    {
        let r = get_object(self.client, "NotificationList", "Name", "notification list item name", name);
        let ghost go = opt_result_view(r);
        let out = match r {
            Ok(Some(o)) => Ok(Some(NotificationListItem::wrap(o))),
            Ok(None) => Ok(None),
            Err(e) => Err(e),
        };
        assert(opt_result_view(out) == go);
        proof {
            match name_of("notification list item name"@, name@) {
                Ok(n) => {
                    let reply = choose|reply: Reply|
                        go == get_outcome::<ApiObject>(
                            exchange(self.client.conn(), named_request(Action::Read, "NotificationList"@, "Name"@, n, None, empty_object()), reply),
                            "NotificationList"@,
                            n,
                            object_reader("Name"@, "notification list item name"@),
                        );
                    assert(opt_result_view(out) == get_outcome::<ApiObject>(
                        exchange(self.conn(), named_request(Action::Read, "NotificationList"@, "Name"@, n, None, empty_object()), reply),
                        "NotificationList"@,
                        n,
                        object_reader("Name"@, "notification list item name"@),
                    ));
                },
                Err(_) => {},
            }
        }
        out
    }

    /// The report retention settings (see [`settings_outcome`]).
    pub fn get_reports_retention(&self) -> (r: Result<ReportsRetention>)
        ensures
            exists|reply: Reply|
                result_view(r) == settings_outcome(exchange(self.conn(), read_request("DataManagement"@), reply), "DataManagement"@),
    {
        let r = get_singleton(self.client, "DataManagement");
        let ghost reply = choose|reply: Reply|
            result_view(r) == settings_outcome(exchange(self.client.conn(), read_request("DataManagement"@), reply), "DataManagement"@);
        let out = match r {
            Ok(o) => Ok(ReportsRetention { inner: o }),
            Err(e) => Err(e),
        };
        assert(result_view(out) == settings_outcome(exchange(self.conn(), read_request("DataManagement"@), reply), "DataManagement"@));
        out
    }
}

} // verus!
