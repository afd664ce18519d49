//! The borrowers.

use crate::audit::{Event, EventData};
use crate::consistency::{
    lemma_create_user_keeps_wf, lemma_delete_user_keeps_wf, lemma_deleted_user_is_gone,
    lemma_update_user_keeps_wf,
};
use crate::database::Database;
use crate::error::{result_view, LedgerError};
use crate::ident::fresh_ids;
use crate::ledger::{edited, position, user_dnis, user_ids};
use crate::models::{
    lemma_views_push, views, CreateUserRequest, UpdateUserRequest, User, UserView,
};
use crate::time::Timestamp;
use vstd::prelude::*;

verus! {

impl Database {
    /// Another user than the one at `u` has the national ID.
    pub(crate) fn dni_held_by_other(&self, u: usize, dni: &String) -> (b: bool)
        ensures
            b == self@.dni_held_by_other(u as int, dni@),
    {
        let mut v: usize = 0;
        while v < self.users.len()
            invariant
                v <= self.users.len(),
                forall|w: int| 0 <= w < v && w != u ==> self.users[w].dni@ != dni@,
            decreases self.users.len() - v,
        {
            if v != u && self.users[v].dni == *dni {
                proof {
                    assert(self@.users[v as int].dni == dni@);
                }
                return true;
            }
            v += 1;
        }
        proof {
            assert forall|w: int| 0 <= w < self@.users.len() && w != u implies (
            #[trigger] self@.users[w]).dni != dni@ by {
                assert(self.users[w].dni@ != dni@);
            }
        }
        false
    }

    /// Adds a user and records `USER_CREATED`. Refused with `Conflict` where
    /// the national ID is already on file. `ids` holds the identifier of the
    /// user and that of the event.
    pub fn create_user_with(
        &mut self,
        req: CreateUserRequest,
        ids: &Vec<String>,
        now: Timestamp,
    ) -> (res: Result<User, LedgerError>)
        requires
            old(self).wf(),
            ids@.len() == 2,
        ensures
            final(self).wf(),
            (final(self)@, result_view(res)) == old(self)@.create_user(req@, ids.deep_view(), now),
    {
        if self.find_dni(&req.dni).is_some() {
            return Err(LedgerError::Conflict);
        }
        if !self.all_fresh(ids) {
            return Err(LedgerError::Conflict);
        }
        let user = User {
            id: ids[0].clone(),
            name: req.name.clone(),
            dni: req.dni,
            address: req.address,
            phone: req.phone,
            email: req.email,
            notes: req.notes,
            created_at: now,
            updated_at: now,
        };
        let event = Event {
            id: ids[1].clone(),
            data: EventData::UserCreated { user_id: ids[0].clone(), name: req.name },
            created_at: now,
            loan_id: None,
            user_id: Some(ids[0].clone()),
        };
        let out = user.clone();
        proof {
            lemma_views_push(self.users@, user);
            lemma_views_push(self.events@, event);
            lemma_create_user_keeps_wf(self@, req@, ids.deep_view(), now);
        }
        self.users.push(user);
        self.events.push(event);
        Ok(out)
    }

    /// Adds a user under a newly drawn identifier, at the current time.
    pub fn create_user(&mut self, req: CreateUserRequest) -> (res: Result<User, LedgerError>)
        requires
            old(self).wf(),
        ensures
            final(self).wf(),
            user_dnis(old(self)@.users).contains(req.dni@) ==> res == Err::<User, LedgerError>(
                LedgerError::Conflict,
            ),
            res is Err ==> final(self)@ == old(self)@,
            exists|ids: Seq<Seq<char>>, now: Timestamp|
                ids.len() == 2 && (final(self)@, result_view(res)) == #[trigger] old(
                    self,
                )@.create_user(req@, ids, now),
    {
        let ids = fresh_ids(2);
        let now = Timestamp::now();
        self.create_user_with(req, &ids, now)
    }

    /// Replaces the supplied fields of a user and records `USER_UPDATED`.
    /// With no field supplied nothing is written. `ids` holds the identifier
    /// of the event.
    pub fn update_user_with(
        &mut self,
        id: &str,
        req: UpdateUserRequest,
        ids: &Vec<String>,
        now: Timestamp,
    ) -> (res: Result<User, LedgerError>)
        requires
            old(self).wf(),
            ids@.len() == 1,
        ensures
            final(self).wf(),
            (final(self)@, result_view(res)) == old(self)@.update_user(
                id@,
                req@,
                ids.deep_view(),
                now,
            ),
    {
        let key = String::from_str(id);
        let u = match self.find_user(&key) {
            Some(u) => u,
            None => {
                return Err(LedgerError::NotFound);
            },
        };
        if req.is_empty() {
            return Ok(self.users[u].clone());
        }
        let taken = match &req.dni {
            Some(dni) => self.dni_held_by_other(u, dni),
            None => false,
        };
        if taken {
            return Err(LedgerError::Conflict);
        }
        if !self.all_fresh(ids) {
            return Err(LedgerError::Conflict);
        }
        let event = Event {
            id: ids[0].clone(),
            data: EventData::UserUpdated { user_id: key.clone(), changes: req.clone() },
            created_at: now,
            loan_id: None,
            user_id: Some(key),
        };
        proof {
            lemma_views_push(self.events@, event);
            lemma_update_user_keeps_wf(self@, id@, req@, ids.deep_view(), now);
        }
        let ghost before = self.users[u as int]@;
        match req.name {
            Some(v) => {
                self.users[u].name = v;
            },
            None => {},
        }
        match req.dni {
            Some(v) => {
                self.users[u].dni = v;
            },
            None => {},
        }
        match req.address {
            Some(v) => {
                self.users[u].address = v;
            },
            None => {},
        }
        match req.phone {
            Some(v) => {
                self.users[u].phone = Some(v);
            },
            None => {},
        }
        match req.email {
            Some(v) => {
                self.users[u].email = Some(v);
            },
            None => {},
        }
        match req.notes {
            Some(v) => {
                self.users[u].notes = Some(v);
            },
            None => {},
        }
        self.users[u].updated_at = now;
        self.events.push(event);
        let out = self.users[u].clone();
        proof {
            assert(out@ == edited(before, req@, now));
            assert(views(self.users@) =~= views(old(self).users@).update(u as int, out@));
        }
        Ok(out)
    }

    /// Edits a user at the current time.
    pub fn update_user(&mut self, id: &str, req: UpdateUserRequest) -> (res: Result<
        User,
        LedgerError,
    >)
        requires
            old(self).wf(),
        ensures
            final(self).wf(),
            !old(self)@.has_user(id@) ==> res == Err::<User, LedgerError>(LedgerError::NotFound),
            old(self)@.has_user(id@) && req@.is_empty() ==> final(self)@ == old(self)@
                && result_view(res) == Ok::<UserView, LedgerError>(old(self)@.user(id@)),
            old(self)@.has_user(id@) && req@.dni is Some && old(self)@.dni_held_by_other(
                position(user_ids(old(self)@.users), id@),
                req@.dni->0,
            ) ==> res == Err::<User, LedgerError>(LedgerError::Conflict),
            res is Err ==> final(self)@ == old(self)@,
            exists|ids: Seq<Seq<char>>, now: Timestamp|
                ids.len() == 1 && (final(self)@, result_view(res)) == #[trigger] old(
                    self,
                )@.update_user(id@, req@, ids, now),
    {
        let ids = fresh_ids(1);
        let now = Timestamp::now();
        self.update_user_with(id, req, &ids, now)
    }

    /// Removes a user, whether or not loans still name them, and records
    /// `USER_DELETED`. `ids` holds the identifier of the event.
    pub fn delete_user_with(&mut self, id: &str, ids: &Vec<String>, now: Timestamp) -> (res:
        Result<(), LedgerError>)
        requires
            old(self).wf(),
            ids@.len() == 1,
        ensures
            final(self).wf(),
            (final(self)@, res) == old(self)@.delete_user(id@, ids.deep_view(), now),
            res is Ok ==> !final(self)@.has_user(id@),
    {
        if !self.all_fresh(ids) {
            return Err(LedgerError::Conflict);
        }
        proof {
            lemma_deleted_user_is_gone(self@, id@, ids.deep_view(), now);
        }
        let key = String::from_str(id);
        let event = Event {
            id: ids[0].clone(),
            data: EventData::UserDeleted { user_id: key.clone() },
            created_at: now,
            loan_id: None,
            user_id: Some(key.clone()),
        };
        proof {
            lemma_views_push(self.events@, event);
            lemma_delete_user_keeps_wf(self@, id@, ids.deep_view(), now);
        }
        match self.find_user(&key) {
            Some(u) => {
                self.users.remove(u);
                proof {
                    assert(views(self.users@) =~= views(old(self).users@).remove(u as int));
                }
            },
            None => {},
        }
        self.events.push(event);
        Ok(())
    }

    /// Removes a user at the current time.
    pub fn delete_user(&mut self, id: &str) -> (res: Result<(), LedgerError>)
        requires
            old(self).wf(),
        ensures
            final(self).wf(),
            res is Err ==> final(self)@ == old(self)@,
            res is Ok ==> !final(self)@.has_user(id@),
            exists|ids: Seq<Seq<char>>, now: Timestamp|
                ids.len() == 1 && (final(self)@, res) == #[trigger] old(self)@.delete_user(
                    id@,
                    ids,
                    now,
                ),
    {
        let ids = fresh_ids(1);
        let now = Timestamp::now();
        self.delete_user_with(id, &ids, now)
    }

    /// The user with the identifier.
    pub fn get_user_by_id(&self, id: &str) -> (res: Result<User, LedgerError>)
        requires
            self.wf(),
        ensures
            res is Ok == self@.has_user(id@),
            res matches Ok(user) ==> user@ == self@.user(id@),
            res matches Err(e) ==> e == LedgerError::NotFound,
    {
        let key = String::from_str(id);
        match self.find_user(&key) {
            Some(u) => Ok(self.users[u].clone()),
            None => Err(LedgerError::NotFound),
        }
    }
}

} // verus!
