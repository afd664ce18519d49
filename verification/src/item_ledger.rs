//! Stock keeping: items, their total and available units.

use crate::audit::{Event, EventData, ItemSource};
use crate::catalogue::{default_catalogue, default_entries};
use crate::consistency::{
    lemma_add_from_catalogue_keeps_wf, lemma_create_item_keeps_wf, lemma_set_total_stock_keeps_wf,
};
use crate::database::Database;
use crate::error::{result_view, LedgerError};
use crate::ident::fresh_ids;
use crate::ledger::{entry_names, item_names, lacking, stocked_events, stocked_from};
use crate::models::{
    lemma_views_push, views, CatalogueEntry, CreateItemRequest, Item, ItemView,
};
use crate::time::Timestamp;
use vstd::prelude::*;

verus! {

impl Item {
    /// Takes `qty` units out of the available stock, unless fewer are there.
    pub fn reserve(&mut self, qty: i32) -> (res: Result<(), LedgerError>)
        requires
            old(self).available_stock - qty <= i32::MAX,
        ensures
            res is Ok <==> old(self).available_stock - qty >= 0,
            res is Err ==> res == Err::<(), LedgerError>(LedgerError::InsufficientStock)
                && *final(self) == *old(self),
            res is Ok ==> *final(self) == (Item {
                available_stock: (old(self).available_stock - qty) as i32,
                ..*old(self)
            }),
    {
        if (self.available_stock as i64) - (qty as i64) < 0 {
            return Err(LedgerError::InsufficientStock);
        }
        self.available_stock = self.available_stock - qty;
        Ok(())
    }

    /// Puts `qty` units back into the available stock. The total stock is
    /// not consulted.
    pub fn release(&mut self, qty: i32)
        requires
            i32::MIN <= old(self).available_stock + qty <= i32::MAX,
        ensures
            *final(self) == (Item {
                available_stock: (old(self).available_stock + qty) as i32,
                ..*old(self)
            }),
    {
        self.available_stock = self.available_stock + qty;
    }
}

impl Database {
    /// Adds an item with all of its stock available, and records
    /// `ITEM_CREATED`. `ids` holds the identifier of the item and that of the
    /// event.
    pub fn create_item_with(
        &mut self,
        req: CreateItemRequest,
        ids: &Vec<String>,
        now: Timestamp,
    ) -> (res: Result<Item, LedgerError>)
        requires
            old(self).wf(),
            ids@.len() == 2,
        ensures
            final(self).wf(),
            (final(self)@, result_view(res)) == old(self)@.create_item(req@, ids.deep_view(), now),
    {
        if req.total_stock < 0 {
            return Err(LedgerError::InvalidState);
        }
        if !self.all_fresh(ids) {
            return Err(LedgerError::Conflict);
        }
        let item = Item {
            id: ids[0].clone(),
            name: req.name.clone(),
            description: req.description,
            category: req.category,
            icon: req.icon,
            total_stock: req.total_stock,
            available_stock: req.total_stock,
            notes: req.notes,
            created_at: now,
            updated_at: now,
        };
        let event = Event {
            id: ids[1].clone(),
            data: EventData::ItemCreated {
                item_id: ids[0].clone(),
                name: req.name,
                source: ItemSource::Custom,
            },
            created_at: now,
            loan_id: None,
            user_id: None,
        };
        let out = item.clone();
        proof {
            lemma_views_push(self.items@, item);
            lemma_views_push(self.events@, event);
            lemma_create_item_keeps_wf(self@, req@, ids.deep_view(), now);
        }
        self.items.push(item);
        self.events.push(event);
        Ok(out)
    }

    /// Adds an item under a newly drawn identifier, at the current time.
    pub fn create_item(&mut self, req: CreateItemRequest) -> (res: Result<Item, LedgerError>)
        requires
            old(self).wf(),
        ensures
            final(self).wf(),
            req.total_stock < 0 ==> res == Err::<Item, LedgerError>(LedgerError::InvalidState),
            res is Err ==> final(self)@ == old(self)@,
            exists|ids: Seq<Seq<char>>, now: Timestamp|
                ids.len() == 2 && (final(self)@, result_view(res)) == #[trigger] old(
                    self,
                )@.create_item(req@, ids, now),
    {
        let ids = fresh_ids(2);
        let now = Timestamp::now();
        self.create_item_with(req, &ids, now)
    }

    /// Some item has the name.
    pub(crate) fn has_item_named(&self, name: &String) -> (b: bool)
        ensures
            b == item_names(self@.items).contains(name@),
    {
        let mut j: usize = 0;
        while j < self.items.len()
            invariant
                j <= self.items.len(),
                forall|i: int| 0 <= i < j ==> self.items[i].name@ != name@,
            decreases self.items.len() - j,
        {
            if self.items[j].name == *name {
                proof {
                    assert(item_names(self@.items)[j as int] == name@);
                }
                return true;
            }
            j += 1;
        }
        false
    }

    /// The places of the catalogue entries that the inventory lacks.
    pub(crate) fn lacking_entries(&self, catalogue: &Vec<CatalogueEntry>) -> (picked: Vec<usize>)
        ensures
            picked.len() == lacking(self@.items, views(catalogue@)).len(),
            forall|k: int|
                0 <= k < picked.len() ==> (#[trigger] picked[k]) < catalogue.len()
                    && catalogue[picked[k] as int]@ == lacking(self@.items, views(catalogue@))[k],
    {
        let ghost all = views(catalogue@);
        let mut picked: Vec<usize> = Vec::new();
        let mut i: usize = 0;
        while i < catalogue.len()
            invariant
                i <= catalogue.len(),
                all == views(catalogue@),
                picked.len() == lacking(self@.items, all.take(i as int)).len(),
                forall|k: int|
                    0 <= k < picked.len() ==> (#[trigger] picked[k]) < catalogue.len()
                        && catalogue[picked[k] as int]@ == lacking(
                        self@.items,
                        all.take(i as int),
                    )[k],
            decreases catalogue.len() - i,
        {
            let ghost earlier = lacking(self@.items, all.take(i as int));
            proof {
                assert(all.take(i as int + 1).drop_last() =~= all.take(i as int));
                assert(all.take(i as int + 1).last() == catalogue[i as int]@);
            }
            let mut taken = self.has_item_named(&catalogue[i].name);
            let mut q: usize = 0;
            while !taken && q < picked.len()
                invariant
                    i < catalogue.len(),
                    q <= picked.len(),
                    picked.len() == earlier.len(),
                    forall|k: int|
                        0 <= k < picked.len() ==> (#[trigger] picked[k]) < catalogue.len()
                            && catalogue[picked[k] as int]@ == earlier[k],
                    taken ==> item_names(self@.items).contains(catalogue[i as int].name@)
                        || entry_names(earlier).contains(catalogue[i as int].name@),
                    !taken ==> !item_names(self@.items).contains(catalogue[i as int].name@),
                    !taken ==> forall|k: int|
                        0 <= k < q ==> earlier[k].name != catalogue[i as int].name@,
                decreases picked.len() - q, if taken { 0int } else { 1int },
            {
                if catalogue[picked[q]].name == catalogue[i].name {
                    proof {
                        assert(entry_names(earlier)[q as int] == catalogue[i as int].name@);
                    }
                    taken = true;
                } else {
                    q += 1;
                }
            }
            if !taken {
                picked.push(i);
            }
            i += 1;
        }
        proof {
            assert(all.take(i as int) =~= all);
        }
        picked
    }

    /// Takes into the inventory, with no stock, every entry of a catalogue
    /// whose name no item has yet, and records `ITEM_CREATED` for each. `ids`
    /// holds, for each such entry in turn, the identifier of the item and
    /// that of its event.
    pub fn add_from_catalogue_with(
        &mut self,
        catalogue: &Vec<CatalogueEntry>,
        ids: &Vec<String>,
        now: Timestamp,
    ) -> (res: Result<Vec<Item>, LedgerError>)
        requires
            old(self).wf(),
            ids@.len() == 2 * lacking(old(self)@.items, views(catalogue@)).len(),
        ensures
            final(self).wf(),
            final(self)@ == old(self)@.add_from_catalogue(
                views(catalogue@),
                ids.deep_view(),
                now,
            ).0,
            match res {
                Ok(added) => old(self)@.add_from_catalogue(
                    views(catalogue@),
                    ids.deep_view(),
                    now,
                ).1 == Ok::<Seq<ItemView>, LedgerError>(views(added@)),
                Err(e) => old(self)@.add_from_catalogue(
                    views(catalogue@),
                    ids.deep_view(),
                    now,
                ).1 == Err::<Seq<ItemView>, LedgerError>(e),
            },
    {
        let picked = self.lacking_entries(catalogue);
        if !self.all_fresh(ids) {
            return Err(LedgerError::Conflict);
        }
        let ghost entries = lacking(self@.items, views(catalogue@));
        let ghost new_items = stocked_from(entries, ids.deep_view(), now);
        let ghost new_events = stocked_events(entries, ids.deep_view(), now);
        let ghost base_items = views(self.items@);
        let ghost base_events = views(self.events@);
        proof {
            lemma_add_from_catalogue_keeps_wf(self@, views(catalogue@), ids.deep_view(), now);
        }
        let mut added: Vec<Item> = Vec::new();
        let mut k: usize = 0;
        while k < picked.len()
            invariant
                k <= picked.len(),
                picked.len() == entries.len(),
                ids.len() == 2 * entries.len(),
                entries == lacking(old(self)@.items, views(catalogue@)),
                new_items == stocked_from(entries, ids.deep_view(), now),
                new_events == stocked_events(entries, ids.deep_view(), now),
                forall|i: int|
                    0 <= i < picked.len() ==> (#[trigger] picked[i]) < catalogue.len()
                        && catalogue[picked[i] as int]@ == entries[i],
                self.users == old(self).users,
                self.loans == old(self).loans,
                self.items.len() == base_items.len() + k,
                self.events.len() == base_events.len() + k,
                added.len() == k,
                forall|i: int| 0 <= i < base_items.len() ==> self.items[i]@ == base_items[i],
                forall|i: int| 0 <= i < base_events.len() ==> self.events[i]@ == base_events[i],
                forall|i: int| 0 <= i < k ==> self.items[base_items.len() + i]@ == new_items[i],
                forall|i: int| 0 <= i < k ==> self.events[base_events.len() + i]@ == new_events[i],
                forall|i: int| 0 <= i < k ==> added[i]@ == new_items[i],
            decreases picked.len() - k,
        {
            let source = &catalogue[picked[k]];
            let item = Item {
                id: ids[2 * k].clone(),
                name: source.name.clone(),
                description: Some(source.description.clone()),
                category: source.category.clone(),
                icon: source.icon.clone(),
                total_stock: 0,
                available_stock: 0,
                notes: None,
                created_at: now,
                updated_at: now,
            };
            let event = Event {
                id: ids[2 * k + 1].clone(),
                data: EventData::ItemCreated {
                    item_id: ids[2 * k].clone(),
                    name: source.name.clone(),
                    source: ItemSource::DefaultList,
                },
                created_at: now,
                loan_id: None,
                user_id: None,
            };
            proof {
                assert(item@ == new_items[k as int]);
                assert(event@ == new_events[k as int]);
            }
            added.push(item.clone());
            self.items.push(item);
            self.events.push(event);
            k += 1;
        }
        proof {
            assert(views(self.items@) =~= base_items + new_items);
            assert(views(self.events@) =~= base_events + new_events);
            assert(views(added@) =~= new_items);
        }
        Ok(added)
    }

    /// Takes into the inventory what it lacks of the built-in catalogue,
    /// under newly drawn identifiers, at the current time.
    pub fn add_default_items(&mut self) -> (res: Result<Vec<Item>, LedgerError>)
        requires
            old(self).wf(),
        ensures
            final(self).wf(),
            res is Err ==> final(self)@ == old(self)@,
            exists|ids: Seq<Seq<char>>, now: Timestamp|
                ids.len() == 2 * lacking(old(self)@.items, default_entries()).len() && {
                    let after = #[trigger] old(self)@.add_from_catalogue(
                        default_entries(),
                        ids,
                        now,
                    );
                    final(self)@ == after.0 && match res {
                        Ok(added) => after.1 == Ok::<Seq<ItemView>, LedgerError>(views(added@)),
                        Err(e) => after.1 == Err::<Seq<ItemView>, LedgerError>(e),
                    }
                },
    {
        let catalogue = default_catalogue();
        let picked = self.lacking_entries(&catalogue);
        let mut ids = fresh_ids(picked.len());
        let mut more = fresh_ids(picked.len());
        ids.append(&mut more);
        let now = Timestamp::now();
        self.add_from_catalogue_with(&catalogue, &ids, now)
    }

    /// Sets an item's total stock; the available stock moves by the same
    /// amount. Records `STOCK_UPDATED` with both counts before and after.
    /// `ids` holds the identifier of the event.
    pub fn update_item_stock_with(
        &mut self,
        item_id: &str,
        new_total_stock: i32,
        ids: &Vec<String>,
        now: Timestamp,
    ) -> (res: Result<Item, LedgerError>)
        requires
            old(self).wf(),
            ids@.len() == 1,
        ensures
            final(self).wf(),
            (final(self)@, result_view(res)) == old(self)@.set_total_stock(
                item_id@,
                new_total_stock as int,
                ids.deep_view(),
                now,
            ),
    {
        let key = String::from_str(item_id);
        let j = match self.find_item(&key) {
            Some(j) => j,
            None => {
                return Err(LedgerError::NotFound);
            },
        };
        let previous_total = self.items[j].total_stock;
        let previous_available = self.items[j].available_stock;
        let moved: i64 = previous_available as i64 + (new_total_stock as i64
            - previous_total as i64);
        if moved < 0 {
            return Err(LedgerError::InvalidState);
        }
        if !self.all_fresh(ids) {
            return Err(LedgerError::Conflict);
        }
        proof {
            assert(self@.items[j as int].total_stock - self@.items[j as int].available_stock
                >= 0);
        }
        let new_available: i32 = moved as i32;
        let event = Event {
            id: ids[0].clone(),
            data: EventData::StockUpdated {
                item_id: key,
                previous_total,
                new_total: new_total_stock,
                previous_available,
                new_available,
            },
            created_at: now,
            loan_id: None,
            user_id: None,
        };
        proof {
            lemma_views_push(self.events@, event);
            lemma_set_total_stock_keeps_wf(
                self@,
                item_id@,
                new_total_stock as int,
                ids.deep_view(),
                now,
            );
        }
        self.items[j].total_stock = new_total_stock;
        self.items[j].available_stock = new_available;
        self.items[j].updated_at = now;
        self.events.push(event);
        let out = self.items[j].clone();
        proof {
            assert(views(self.items@) =~= views(old(self).items@).update(j as int, out@));
        }
        Ok(out)
    }

    /// Sets an item's total stock at the current time.
    pub fn update_item_stock(&mut self, item_id: &str, new_total_stock: i32) -> (res: Result<
        Item,
        LedgerError,
    >)
        requires
            old(self).wf(),
        ensures
            final(self).wf(),
            !old(self)@.has_item(item_id@) ==> res == Err::<Item, LedgerError>(
                LedgerError::NotFound,
            ),
            old(self)@.has_item(item_id@) && old(self)@.item(item_id@).available_stock
                + new_total_stock - old(self)@.item(item_id@).total_stock < 0 ==> res == Err::<
                Item,
                LedgerError,
            >(LedgerError::InvalidState),
            res is Err ==> final(self)@ == old(self)@,
            exists|ids: Seq<Seq<char>>, now: Timestamp|
                ids.len() == 1 && (final(self)@, result_view(res)) == #[trigger] old(
                    self,
                )@.set_total_stock(item_id@, new_total_stock as int, ids, now),
    {
        let ids = fresh_ids(1);
        let now = Timestamp::now();
        self.update_item_stock_with(item_id, new_total_stock, &ids, now)
    }

    /// The item with the identifier.
    pub fn get_item_by_id(&self, id: &str) -> (res: Result<Item, LedgerError>)
        requires
            self.wf(),
        ensures
            res is Ok == self@.has_item(id@),
            res matches Ok(item) ==> item@ == self@.item(id@),
            res matches Err(e) ==> e == LedgerError::NotFound,
    {
        let key = String::from_str(id);
        match self.find_item(&key) {
            Some(j) => Ok(self.items[j].clone()),
            None => Err(LedgerError::NotFound),
        }
    }
}

} // verus!
