//! A paste: its text, its settings and its reading history.
use vstd::prelude::*;
use crate::clock::{
    datetime_num_days_between, datetime_num_seconds_between, utc_now, whole_days_between,
    whole_seconds_between, Timestamp,
};
use crate::text::{decimal_text, i64_decimal, string_from_chars};
use crate::util::misc::{is_valid_url, spec_is_valid_url};

verus! {

/// A stored paste.
#[derive(Clone, Debug)]
pub struct Pasta {
    /// The slug under which the paste is stored.
    pub slug: String,
    /// The pasted text.
    pub content: String,
    /// Whether a visit opens the paste for editing instead of showing it.
    pub allow_edit: bool,
    /// When the paste was created.
    pub created: Timestamp,
    /// When the paste expires, if ever.
    pub expiration: Option<Timestamp>,
    /// When the paste was last shown.
    pub last_read: Timestamp,
    /// How many times the paste was shown.
    pub read_count: u64,
    /// After how many showings the paste is burnt; 0 for no limit.
    pub burn_after_reads: u64,
}

/// A paste as a mathematical value: the texts as character sequences.
pub struct PastaView {
    pub slug: Seq<char>,
    pub content: Seq<char>,
    pub allow_edit: bool,
    pub created: Timestamp,
    pub expiration: Option<Timestamp>,
    pub last_read: Timestamp,
    pub read_count: u64,
    pub burn_after_reads: u64,
}

impl View for Pasta {
    type V = PastaView;

    open spec fn view(&self) -> PastaView {
        PastaView {
            slug: self.slug@,
            content: self.content@,
            allow_edit: self.allow_edit,
            created: self.created,
            expiration: self.expiration,
            last_read: self.last_read,
            read_count: self.read_count,
            burn_after_reads: self.burn_after_reads,
        }
    }
}

/// The unit in which a paste's size is shown.
#[derive(Clone, Copy, Debug, PartialEq, Eq, Structural)]
pub enum SizeUnit {
    /// Below 1024 bytes: shown in bytes.
    Bytes,
    /// Below 1024 × 1024 bytes: shown in kilobytes.
    KiloBytes,
    /// Otherwise: shown in megabytes.
    MegaBytes,
}

/// The unit for a size of `bytes` bytes.
pub open spec fn size_unit_of(bytes: nat) -> SizeUnit {
    if bytes < 1024 {
        SizeUnit::Bytes
    } else if bytes < 1024 * 1024 {
        SizeUnit::KiloBytes
    } else {
        SizeUnit::MegaBytes
    }
}

/// How long ago something happened, given `diff` whole seconds: seconds below a minute
/// (negative values included), then whole minutes, hours or days, as `"<n>s ago"`,
/// `"<n>m ago"`, `"<n>h ago"` or `"<n>d ago"`.
pub open spec fn time_ago_text(diff: int) -> Seq<char> {
    if diff < 60 {
        decimal_text(diff) + "s ago"@
    } else if diff < 3600 {
        decimal_text(diff / 60) + "m ago"@
    } else if diff < 86400 {
        decimal_text(diff / 3600) + "h ago"@
    } else {
        decimal_text(diff / 86400) + "d ago"@
    }
}

/// The text for `diff` whole seconds ago (see [`time_ago_text`]).
pub fn time_ago_string(diff: i64) -> (r: String)
    ensures
        r@ == time_ago_text(diff as int),
{
    let (n, suffix): (i64, &str) = if diff < 60 {
        (diff, "s ago")
    } else if diff < 3600 {
        (diff / 60, "m ago")
    } else if diff < 86400 {
        (diff / 3600, "h ago")
    } else {
        (diff / 86400, "d ago")
    };
    let mut out = i64_decimal(n);
    let mut tail = crate::text::chars_of(suffix);
    out.append(&mut tail);
    string_from_chars(out.as_slice())
}

impl PastaView {
    /// All instants of the paste lie in chrono's range.
    pub open spec fn times_wf(self) -> bool {
        &&& self.created.wf()
        &&& self.last_read.wf()
        &&& self.expiration matches Some(e) ==> e.wf()
    }

    /// The paste has an expiry at or before `now`.
    pub open spec fn is_expired_at(self, now: Timestamp) -> bool {
        match self.expiration {
            Some(e) => e.at_or_before(now),
            None => false,
        }
    }

    /// The paste has a burn limit and has been shown that many times.
    pub open spec fn burn_limit_reached(self) -> bool {
        self.burn_after_reads > 0 && self.read_count >= self.burn_after_reads
    }

    /// The paste is due for removal at `now`: expired, burnt, or, when `gc_days` is not
    /// zero, not shown for at least `gc_days` whole days.
    pub open spec fn is_stale_at(self, now: Timestamp, gc_days: u16) -> bool {
        ||| self.is_expired_at(now)
        ||| self.burn_limit_reached()
        ||| (gc_days > 0 && whole_days_between(now, self.last_read) >= gc_days)
    }
}

impl Pasta {
    /// The slug of the paste.
    pub fn slug(&self) -> (r: &str)
        ensures
            r@ == self.slug@,
    {
        self.slug.as_str()
    }

    /// `"URL"` when the whole content is one URL, `"TEXT"` otherwise.
    pub fn pasta_type(&self) -> (r: &'static str)
        ensures
            r@ == (if spec_is_valid_url(self.content@) {
                "URL"@
            } else {
                "TEXT"@
            }),
    {
        if is_valid_url(self.content.as_str()) {
            "URL"
        } else {
            "TEXT"
        }
    }

    /// The unit in which the content's size in bytes is shown.
    pub fn total_size_unit(&self) -> (r: SizeUnit)
        ensures
            r == size_unit_of(vstd::utf8::encode_utf8(self.content@).len()),
    {
        let bytes = self.content.as_str().as_bytes().len();
        if bytes < 1024 {
            SizeUnit::Bytes
        } else if bytes < 1024 * 1024 {
            SizeUnit::KiloBytes
        } else {
            SizeUnit::MegaBytes
        }
    }

    /// A copy of the paste.
    pub fn duplicate(&self) -> (r: Pasta)
        ensures
            r@ == self@,
    {
        Pasta {
            slug: self.slug.clone(),
            content: self.content.clone(),
            allow_edit: self.allow_edit,
            created: self.created,
            expiration: self.expiration,
            last_read: self.last_read,
            read_count: self.read_count,
            burn_after_reads: self.burn_after_reads,
        }
    }

    /// Whether all instants of the paste lie in chrono's range (see
    /// [`PastaView::times_wf`]).
    pub fn times_in_range(&self) -> (r: bool)
        ensures
            r == self@.times_wf(),
    {
        self.created.is_in_range() && self.last_read.is_in_range() && match &self.expiration {
            Some(e) => e.is_in_range(),
            None => true,
        }
    }

    /// Whether the paste has an expiry at or before `now`.
    pub fn is_expired_at(&self, now: &Timestamp) -> (r: bool)
        ensures
            r == self@.is_expired_at(*now),
    {
        match &self.expiration {
            Some(e) => e.is_at_or_before(now),
            None => false,
        }
    }

    /// Whether the paste has a burn limit and has been shown that many times.
    pub fn burn_limit_reached(&self) -> (r: bool)
        ensures
            r == self@.burn_limit_reached(),
    {
        self.burn_after_reads > 0 && self.read_count >= self.burn_after_reads
    }

    /// Whether the paste is due for removal at `now` (see [`PastaView::is_stale_at`]).
    pub fn is_stale_at(&self, now: &Timestamp, gc_days: u16) -> (r: bool)
        requires
            now.wf(),
            self@.times_wf(),
        ensures
            r == self@.is_stale_at(*now, gc_days),
    {
        if self.is_expired_at(now) || self.burn_limit_reached() {
            return true;
        }
        if gc_days > 0 {
            let days = datetime_num_days_between(*now, self.last_read);
            days >= gc_days as i64
        } else {
            false
        }
    }

    /// How long ago, at `now`, the paste was last shown (see [`time_ago_text`]).
    pub fn time_ago_at(&self, now: &Timestamp) -> (r: String)
        requires
            now.wf(),
            self@.times_wf(),
        ensures
            r@ == time_ago_text(whole_seconds_between(*now, self.last_read)),
    {
        let diff = datetime_num_seconds_between(*now, self.last_read);
        time_ago_string(diff)
    }

    /// How long ago the paste was last shown, measured from the current time.
    pub fn short_last_read_time_ago_as_string(&self) -> (r: String)
        requires
            self@.times_wf(),
        ensures
            exists|now: Timestamp|
                now.wf() && r@ == time_ago_text(whole_seconds_between(now, self.last_read)),
    {
        let now = utc_now();
        self.time_ago_at(&now)
    }
}

} // verus!
