//! Checkout records and books.
//!
//! A `BookCheckout` is the payload of one block: either one book-checkout
//! event, or the genesis marker. Its canonical textual form, fixed by
//! `record_repr`, is what the block content hash covers.

use vstd::prelude::*;
use crate::digits::dec_rep;
use crate::digits::u64_to_dec;
use crate::hashing::is_lower_hex_digit;
use crate::hashing::md5_hex;
use crate::hashing::md5_hex_of;
use crate::hashing::now_epoch_seconds;

verus! {

/// One book-checkout event, or the genesis marker.
pub struct BookCheckout {
    book_id: String,
    user: String,
    checkout_date: String,
    is_genesis: bool,
}

/// The mathematical value of a `BookCheckout`.
pub struct BookCheckoutView {
    pub book_id: Seq<char>,
    pub user: Seq<char>,
    pub checkout_date: Seq<char>,
    pub is_genesis: bool,
}

impl View for BookCheckout {
    type V = BookCheckoutView;

    closed spec fn view(&self) -> BookCheckoutView {
        BookCheckoutView {
            book_id: self.book_id@,
            user: self.user@,
            checkout_date: self.checkout_date@,
            is_genesis: self.is_genesis,
        }
    }
}

/// The payload of block zero: empty fields, genesis flag set.
pub open spec fn genesis_record() -> BookCheckoutView {
    BookCheckoutView {
        book_id: Seq::empty(),
        user: Seq::empty(),
        checkout_date: Seq::empty(),
        is_genesis: true,
    }
}

pub open spec fn bool_repr(b: bool) -> Seq<char> {
    if b {
        "true"@
    } else {
        "false"@
    }
}

/// The canonical textual form of a record, the exact serialization that the
/// block content hash covers: the four fields in a fixed order, each behind
/// its label, the whole in braces.
pub open spec fn record_repr(r: BookCheckoutView) -> Seq<char> {
    "{book_id:"@ + r.book_id + ",user:"@ + r.user + ",date:"@ + r.checkout_date + ",genesis:"@
        + bool_repr(r.is_genesis) + "}"@
}

impl BookCheckout {
    /// The genesis marker record.
    pub fn new_genesis() -> (r: BookCheckout)
        ensures
            r@ == genesis_record(),
    {
        let r = BookCheckout {
            book_id: String::new(),
            user: String::new(),
            checkout_date: String::new(),
            is_genesis: true,
        };
        proof {
            assert(r@ =~= genesis_record());
        }
        r
    }

    /// A checkout event for the given book and user, dated with the clock's
    /// current reading in whole seconds, rendered in decimal.
    pub fn new_checkout(book_id: &str, user: &str) -> (r: BookCheckout)
        ensures
            r@.book_id == book_id@,
            r@.user == user@,
            !r@.is_genesis,
            exists|t: u64| r@.checkout_date == dec_rep(t as nat),
    {
        let t = now_epoch_seconds();
        let date = u64_to_dec(t);
        proof {
            assert(date@ == dec_rep(t as nat));
        }
        BookCheckout {
            book_id: String::from_str(book_id),
            user: String::from_str(user),
            checkout_date: date,
            is_genesis: false,
        }
    }

    /// Builds the canonical textual form of this record.
    pub fn repr(&self) -> (r: String)
        ensures
            r@ == record_repr(self@),
    {
        let mut s = String::from_str("{book_id:");
        s.append(self.book_id.as_str());
        s.append(",user:");
        s.append(self.user.as_str());
        s.append(",date:");
        s.append(self.checkout_date.as_str());
        s.append(",genesis:");
        if self.is_genesis {
            s.append("true");
        } else {
            s.append("false");
        }
        s.append("}");
        proof {
            assert(s@ =~= record_repr(self@));
        }
        s
    }

    pub fn book_id(&self) -> (r: &String)
        ensures
            r@ == self@.book_id,
    {
        &self.book_id
    }

    pub fn user(&self) -> (r: &String)
        ensures
            r@ == self@.user,
    {
        &self.user
    }

    pub fn checkout_date(&self) -> (r: &String)
        ensures
            r@ == self@.checkout_date,
    {
        &self.checkout_date
    }

    pub fn is_genesis(&self) -> (r: bool)
        ensures
            r == self@.is_genesis,
    {
        self.is_genesis
    }
}

/// Derives a book's content-derived identifier: the MD5 digest, in hex, of
/// the title and the ISBN concatenated. Two books with the same title and
/// ISBN collide by design.
pub fn derive_book_id(title: &str, isbn: &str) -> (r: String)
    ensures
        r@ == md5_hex(title@ + isbn@),
        r@.len() == 32,
        forall|i: int| 0 <= i < r@.len() ==> is_lower_hex_digit(#[trigger] r@[i]),
{
    let joined = String::from_str(title).concat(isbn);
    md5_hex_of(joined.as_str())
}

/// A book, identified by the digest of its title and ISBN.
pub struct Book {
    pub id: String,
    pub title: String,
    pub isbn: String,
}

impl Book {
    pub fn new(title: &str, isbn: &str) -> (b: Book)
        ensures
            b.id@ == md5_hex(title@ + isbn@),
            b.title@ == title@,
            b.isbn@ == isbn@,
    {
        Book {
            id: derive_book_id(title, isbn),
            title: String::from_str(title),
            isbn: String::from_str(isbn),
        }
    }

    /// Consumes the book and produces a checkout record for the given user,
    /// carrying the book's identifier and, as its date, the clock's current
    /// reading in decimal.
    pub fn checkout(self, user: &str) -> (r: BookCheckout)
        ensures
            r@.book_id == self.id@,
            r@.user == user@,
            !r@.is_genesis,
            exists|t: u64| r@.checkout_date == dec_rep(t as nat),
    {
        BookCheckout::new_checkout(self.id.as_str(), user)
    }
}

} // verus!
