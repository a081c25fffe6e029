//! Laws that relate the paste routes to one another.
use vstd::prelude::*;
use vstd::utf8::encode_utf8;
use crate::clock::{whole_days_between, Timestamp};
use crate::endpoints::core_routes::{
    get_raw_model, get_slug_model, get_slug_ok, get_slug_ok_at, is_reserved_slug, new_pasta,
    post_slug_model, post_slug_ok, slug_format_ok, spec_expiration_to_timestamp, spec_normalize_slug,
    spec_share_url, wants_share, PastaForm, QueryParams, SlugPageView, MAX_CONTENT_BYTES,
};
use crate::util::misc::{qr_input_can_be_cut, spec_string_to_qr_svg};
use crate::text::contains_piece;
use crate::pasta::PastaView;
use crate::store::fresh_at;

verus! {

/// What a paste that the routes store looks like: it is kept under its own slug, the
/// slug has the shape of a slug and is not reserved, the content is within the size
/// limit, and its instants lie in range.
pub open spec fn entries_valid(m: Map<Seq<char>, PastaView>) -> bool {
    forall|k: Seq<char>|
        #[trigger] m.contains_key(k) ==> {
            &&& m[k].slug == k
            &&& slug_format_ok(k)
            &&& !is_reserved_slug(k)
            &&& encode_utf8(m[k].content).len() <= MAX_CONTENT_BYTES
            &&& m[k].times_wf()
        }
}

/// Read after write: once a submission is accepted, the raw route gives back exactly the
/// submitted content under the submitted slug, and the store holds the new paste there.
pub proof fn law_read_after_create(
    m: Map<Seq<char>, PastaView>,
    raw: Seq<char>,
    form: PastaForm,
    now: Timestamp,
)
    requires
        post_slug_model(m, raw, form, now).0 is Created,
    ensures
        get_raw_model(post_slug_model(m, raw, form, now).1, raw) == Some(form.content@),
        post_slug_model(m, raw, form, now).1[spec_normalize_slug(raw)] == new_pasta(
            spec_normalize_slug(raw),
            form,
            now,
        ),
{
}

/// A paste shows what was submitted: right after an accepted submission for a canonical
/// slug, a plain visit at the same instant shows the submitted content as its first
/// showing, or opens it in the editor when it may be edited.
pub proof fn law_view_after_create(
    m: Map<Seq<char>, PastaView>,
    raw: Seq<char>,
    form: PastaForm,
    q: QueryParams,
    now: Timestamp,
    public_path: Seq<char>,
)
    requires
        raw == spec_normalize_slug(raw),
        now.wf(),
        !wants_share(q),
        post_slug_model(m, raw, form, now).0 is Created,
    ensures
        ({
            let m2 = post_slug_model(m, raw, form, now).1;
            let page = get_slug_model(m2, raw, q, now, public_path).0;
            if form.allow_edit is Some {
                page == SlugPageView::Edit { slug: raw, content: form.content@ }
            } else {
                &&& page is View
                &&& page->View_pasta.content == form.content@
                &&& page->View_pasta.read_count == 1
                &&& page->View_pasta.last_read == now
            }
        }),
{
}

/// Right after an accepted submission for a canonical slug, the share screen that the
/// answer leads to shows the paste's link and leaves the store as the submission left it.
pub proof fn law_share_after_create(
    m: Map<Seq<char>, PastaView>,
    raw: Seq<char>,
    form: PastaForm,
    q: QueryParams,
    now: Timestamp,
    public_path: Seq<char>,
)
    requires
        raw == spec_normalize_slug(raw),
        wants_share(q),
        post_slug_model(m, raw, form, now).0 is Created,
    ensures
        ({
            let m2 = post_slug_model(m, raw, form, now).1;
            &&& get_slug_model(m2, raw, q, now, public_path).0 is Share
            &&& get_slug_model(m2, raw, q, now, public_path).0->Share_full_url
                == crate::endpoints::core_routes::spec_share_url(public_path, raw)
            &&& get_slug_model(m2, raw, q, now, public_path).1 == m2
        }),
{
}

/// Read-only mode: a submission for a slug that holds a paste that may not be edited is
/// refused (or rejected earlier) and leaves the store as it was.
pub proof fn law_read_only_paste_is_kept(
    m: Map<Seq<char>, PastaView>,
    raw: Seq<char>,
    form: PastaForm,
    now: Timestamp,
)
    requires
        m.contains_key(spec_normalize_slug(raw)),
        !m[spec_normalize_slug(raw)].allow_edit,
    ensures
        !(post_slug_model(m, raw, form, now).0 is Created),
        post_slug_model(m, raw, form, now).1 == m,
{
}

/// A refused submission leaves the store as it was.
pub proof fn law_refused_post_changes_nothing(
    m: Map<Seq<char>, PastaView>,
    raw: Seq<char>,
    form: PastaForm,
    now: Timestamp,
)
    requires
        !(post_slug_model(m, raw, form, now).0 is Created),
    ensures
        post_slug_model(m, raw, form, now).1 == m,
{
}

/// Content over the size limit is never stored.
pub proof fn law_large_content_is_refused(
    m: Map<Seq<char>, PastaView>,
    raw: Seq<char>,
    form: PastaForm,
    now: Timestamp,
)
    requires
        encode_utf8(form.content@).len() > MAX_CONTENT_BYTES,
    ensures
        !(post_slug_model(m, raw, form, now).0 is Created),
        post_slug_model(m, raw, form, now).1 == m,
{
}

/// Only a showing or the deletion of an expired or burnt paste changes the store: a
/// redirect, a refused slug, the share screen, the editor and the creation form leave it
/// as it was. In particular the share screen does not count as a showing.
pub proof fn law_only_showing_or_expiry_changes_store(
    m: Map<Seq<char>, PastaView>,
    raw: Seq<char>,
    q: QueryParams,
    now: Timestamp,
    public_path: Seq<char>,
)
    requires
        !(get_slug_model(m, raw, q, now, public_path).0 is View),
        !(get_slug_model(m, raw, q, now, public_path).0 is Expired),
    ensures
        get_slug_model(m, raw, q, now, public_path).1 == m,
{
}

/// The share screen of a stored paste leaves it, and its showing count, as they were.
pub proof fn law_share_screen_is_not_a_showing(
    m: Map<Seq<char>, PastaView>,
    raw: Seq<char>,
    q: QueryParams,
    now: Timestamp,
    public_path: Seq<char>,
)
    requires
        raw == spec_normalize_slug(raw),
        slug_format_ok(raw),
        wants_share(q),
        m.contains_key(raw),
    ensures
        get_slug_model(m, raw, q, now, public_path).0 is Share,
        get_slug_model(m, raw, q, now, public_path).1 == m,
{
}

/// A visit of an expired paste reports it gone and deletes it.
pub proof fn law_expired_paste_is_deleted(
    m: Map<Seq<char>, PastaView>,
    raw: Seq<char>,
    q: QueryParams,
    now: Timestamp,
    public_path: Seq<char>,
)
    requires
        raw == spec_normalize_slug(raw),
        slug_format_ok(raw),
        !wants_share(q),
        m.contains_key(raw),
        m[raw].is_expired_at(now),
    ensures
        get_slug_model(m, raw, q, now, public_path).0 is Expired,
        get_slug_model(m, raw, q, now, public_path).1 == m.remove(raw),
{
}

/// The store after `k` visits of the slug `raw` at `now`.
pub open spec fn visit_times(
    m: Map<Seq<char>, PastaView>,
    raw: Seq<char>,
    q: QueryParams,
    now: Timestamp,
    public_path: Seq<char>,
    k: nat,
) -> Map<Seq<char>, PastaView>
    decreases k,
{
    if k == 0 {
        m
    } else {
        get_slug_model(visit_times(m, raw, q, now, public_path, (k - 1) as nat), raw, q, now, public_path).1
    }
}

/// Burn after reading: a paste with a burn limit of `n` showings, shown `r < n` times so
/// far, neither expired nor editable, stays stored through the next `n - r - 1` visits,
/// with each visit counted once, and is gone after the visit that makes `n`.
pub proof fn law_burn_after_reading(
    m: Map<Seq<char>, PastaView>,
    raw: Seq<char>,
    q: QueryParams,
    now: Timestamp,
    public_path: Seq<char>,
    k: nat,
)
    requires
        raw == spec_normalize_slug(raw),
        slug_format_ok(raw),
        !wants_share(q),
        m.contains_key(raw),
        !m[raw].allow_edit,
        !m[raw].is_expired_at(now),
        m[raw].burn_after_reads > 0,
        m[raw].read_count < m[raw].burn_after_reads,
        k <= m[raw].burn_after_reads - m[raw].read_count,
    ensures
        k < m[raw].burn_after_reads - m[raw].read_count ==> {
            &&& visit_times(m, raw, q, now, public_path, k).contains_key(raw)
            &&& visit_times(m, raw, q, now, public_path, k)[raw].read_count == m[raw].read_count + k
            &&& visit_times(m, raw, q, now, public_path, k)[raw].content == m[raw].content
        },
        k == m[raw].burn_after_reads - m[raw].read_count ==> !visit_times(
            m,
            raw,
            q,
            now,
            public_path,
            k,
        ).contains_key(raw),
    decreases k,
{
    if k > 0 {
        law_burn_after_reading(m, raw, q, now, public_path, (k - 1) as nat);
        lemma_visits_keep_settings(m, raw, q, now, public_path, (k - 1) as nat);
    }
}

/// Visits of a paste that is neither expired nor editable only touch its showing record.
proof fn lemma_visits_keep_settings(
    m: Map<Seq<char>, PastaView>,
    raw: Seq<char>,
    q: QueryParams,
    now: Timestamp,
    public_path: Seq<char>,
    k: nat,
)
    requires
        raw == spec_normalize_slug(raw),
        slug_format_ok(raw),
        !wants_share(q),
        m.contains_key(raw),
        visit_times(m, raw, q, now, public_path, k).contains_key(raw),
    ensures
        visit_times(m, raw, q, now, public_path, k)[raw].expiration == m[raw].expiration,
        visit_times(m, raw, q, now, public_path, k)[raw].allow_edit == m[raw].allow_edit,
        visit_times(m, raw, q, now, public_path, k)[raw].burn_after_reads == m[raw].burn_after_reads,
        visit_times(m, raw, q, now, public_path, k)[raw].content == m[raw].content,
    decreases k,
{
    if k > 0 {
        let prev = visit_times(m, raw, q, now, public_path, (k - 1) as nat);
        if prev.contains_key(raw) {
            lemma_visits_keep_settings(m, raw, q, now, public_path, (k - 1) as nat);
        }
    }
}

/// The sweep keeps exactly the pastes that are not due for removal, unchanged.
pub proof fn law_sweep_keeps_exactly_fresh(m: Map<Seq<char>, PastaView>, now: Timestamp, gc_days: u16)
    ensures
        forall|k: Seq<char>| #[trigger] fresh_at(m, now, gc_days).contains_key(k) ==> m.contains_key(k)
            && !m[k].is_stale_at(now, gc_days) && fresh_at(m, now, gc_days)[k] == m[k],
        forall|k: Seq<char>|
            #[trigger] m.contains_key(k) && !m[k].is_stale_at(now, gc_days) ==> fresh_at(
                m,
                now,
                gc_days,
            ).contains_key(k),
{
}

/// The routes and the sweep keep every stored paste valid: under its own canonical,
/// unreserved slug, within the size limit, with its instants in range.
pub proof fn law_entries_stay_valid(
    m: Map<Seq<char>, PastaView>,
    raw: Seq<char>,
    form: PastaForm,
    q: QueryParams,
    now: Timestamp,
    public_path: Seq<char>,
    gc_days: u16,
)
    requires
        entries_valid(m),
        now.wf(),
    ensures
        post_slug_ok(m, raw, form, now) ==> entries_valid(post_slug_model(m, raw, form, now).1),
        entries_valid(get_slug_model(m, raw, q, now, public_path).1),
        entries_valid(fresh_at(m, now, gc_days)),
{
    let slug = spec_normalize_slug(raw);
    let m2 = post_slug_model(m, raw, form, now).1;
    assert forall|k: Seq<char>| post_slug_ok(m, raw, form, now) && #[trigger] m2.contains_key(k) implies {
        &&& m2[k].slug == k
        &&& slug_format_ok(k)
        &&& !is_reserved_slug(k)
        &&& encode_utf8(m2[k].content).len() <= MAX_CONTENT_BYTES
        &&& m2[k].times_wf()
    } by {
        if k == slug && post_slug_model(m, raw, form, now).0 is Created {
            let e = spec_expiration_to_timestamp(form.expiration@, now);
            assert(e matches Some(t) ==> t.wf());
        } else {
            assert(m.contains_key(k));
        }
    }
    let m3 = get_slug_model(m, raw, q, now, public_path).1;
    assert forall|k: Seq<char>| #[trigger] m3.contains_key(k) implies {
        &&& m3[k].slug == k
        &&& slug_format_ok(k)
        &&& !is_reserved_slug(k)
        &&& encode_utf8(m3[k].content).len() <= MAX_CONTENT_BYTES
        &&& m3[k].times_wf()
    } by {
        assert(m.contains_key(k));
    }
    let m4 = fresh_at(m, now, gc_days);
    assert forall|k: Seq<char>| #[trigger] m4.contains_key(k) implies {
        &&& m4[k].slug == k
        &&& slug_format_ok(k)
        &&& !is_reserved_slug(k)
        &&& encode_utf8(m4[k].content).len() <= MAX_CONTENT_BYTES
        &&& m4[k].times_wf()
    } by {
        assert(m.contains_key(k));
    }
}


/// An expiry `secs` whole seconds after `now`.
pub open spec fn expires_after(e: Option<Timestamp>, now: Timestamp, secs: int) -> bool {
    e matches Some(t) && t.secs == now.secs + secs && t.nanos == now.nanos
}

/// An accepted submission stores exactly the submitted paste under the canonical slug and
/// touches no other slug: the form's content, edit flag and burn limit, created and last
/// shown at the submission time, not yet shown, and expiring after the chosen lifetime
/// (one hour, one day, one week, thirty days, never; any other choice one week).
pub proof fn law_created_paste_is_the_form(
    m: Map<Seq<char>, PastaView>,
    raw: Seq<char>,
    form: PastaForm,
    now: Timestamp,
)
    requires
        post_slug_ok(m, raw, form, now),
        post_slug_model(m, raw, form, now).0 is Created,
    ensures
        ({
            let slug = spec_normalize_slug(raw);
            let m2 = post_slug_model(m, raw, form, now).1;
            let p = m2[slug];
            let choice = form.expiration@;
            &&& m2.contains_key(slug)
            &&& p.slug == slug
            &&& p.content == form.content@
            &&& p.allow_edit == (form.allow_edit is Some)
            &&& p.burn_after_reads == form.burn_after
            &&& p.read_count == 0
            &&& p.created == now
            &&& p.last_read == now
            &&& choice == "never"@ ==> p.expiration is None
            &&& choice == "1hour"@ ==> expires_after(p.expiration, now, 3600)
            &&& choice == "24hour"@ ==> expires_after(p.expiration, now, 86400)
            &&& choice == "1week"@ ==> expires_after(p.expiration, now, 604800)
            &&& choice == "1month"@ ==> expires_after(p.expiration, now, 2592000)
            &&& choice != "never"@ && choice != "1hour"@ && choice != "24hour"@ && choice != "1week"@
                && choice != "1month"@ ==> expires_after(p.expiration, now, 604800)
            &&& forall|k: Seq<char>|
                k != slug ==> (#[trigger] m2.contains_key(k) == m.contains_key(k)) && (m.contains_key(k)
                    ==> m2[k] == m[k])
        }),
{
    lemma_lifetime_choices_distinct();
}

/// The five lifetime choices are different texts.
proof fn lemma_lifetime_choices_distinct()
    ensures
        "never"@ != "1hour"@,
        "never"@ != "24hour"@,
        "never"@ != "1week"@,
        "never"@ != "1month"@,
        "1hour"@ != "24hour"@,
        "1hour"@ != "1week"@,
        "1hour"@ != "1month"@,
        "24hour"@ != "1week"@,
        "24hour"@ != "1month"@,
        "1week"@ != "1month"@,
{
    reveal_strlit("never");
    reveal_strlit("1hour");
    reveal_strlit("24hour");
    reveal_strlit("1week");
    reveal_strlit("1month");
    assert("never"@[0] != "1hour"@[0]);
    assert("never"@[0] != "1week"@[0]);
    assert("1hour"@[1] != "1week"@[1]);
    assert("24hour"@[0] != "1month"@[0]);
}

/// Burn after reading from the submission on: a paste submitted with a burn limit of `n`
/// showings and no edit flag is shown by each of the next `n - 1` plain visits at the
/// submission time, counted once per visit, and is gone after the `n`-th.
pub proof fn law_submitted_paste_burns_after_its_limit(
    m: Map<Seq<char>, PastaView>,
    raw: Seq<char>,
    form: PastaForm,
    q: QueryParams,
    now: Timestamp,
    public_path: Seq<char>,
)
    requires
        post_slug_ok(m, raw, form, now),
        post_slug_model(m, raw, form, now).0 is Created,
        raw == spec_normalize_slug(raw),
        !wants_share(q),
        form.allow_edit is None,
        form.burn_after > 0,
    ensures
        ({
            let m2 = post_slug_model(m, raw, form, now).1;
            &&& forall|k: nat|
                k < form.burn_after ==> #[trigger] visit_times(m2, raw, q, now, public_path, k).contains_key(raw)
                    && visit_times(m2, raw, q, now, public_path, k)[raw].read_count == k
            &&& !visit_times(m2, raw, q, now, public_path, form.burn_after as nat).contains_key(raw)
        }),
{
    law_created_paste_is_the_form(m, raw, form, now);
    let m2 = post_slug_model(m, raw, form, now).1;
    assert(!m2[raw].is_expired_at(now));
    assert forall|k: nat| k < form.burn_after implies #[trigger] visit_times(m2, raw, q, now, public_path, k).contains_key(raw)
        && visit_times(m2, raw, q, now, public_path, k)[raw].read_count == k by {
        law_burn_after_reading(m2, raw, q, now, public_path, k);
    }
    law_burn_after_reading(m2, raw, q, now, public_path, form.burn_after as nat);
}

/// The sweep's rule: a paste stays exactly when it has not expired by `now` (its expiry,
/// if any, is later), has not reached a burn limit, and, when `gc_days` is not zero, was
/// last shown fewer than `gc_days` whole days before `now`; when it was created plays no
/// part. Kept pastes are unchanged.
pub proof fn law_sweep_rule(m: Map<Seq<char>, PastaView>, now: Timestamp, gc_days: u16, k: Seq<char>)
    ensures
        fresh_at(m, now, gc_days).contains_key(k) <==> {
            &&& m.contains_key(k)
            &&& !(m[k].expiration matches Some(e) && e.at_or_before(now))
            &&& !(m[k].burn_after_reads > 0 && m[k].read_count >= m[k].burn_after_reads)
            &&& !(gc_days > 0 && whole_days_between(now, m[k].last_read) >= gc_days)
        },
        fresh_at(m, now, gc_days).contains_key(k) ==> fresh_at(m, now, gc_days)[k] == m[k],
{
}

/// The share screen encodes the share link: whenever a visit shows the share screen, its
/// link is the public base followed by `/` and the slug, and its QR code is the QR code
/// of that very link.
pub proof fn law_share_screen_encodes_link(
    m: Map<Seq<char>, PastaView>,
    raw: Seq<char>,
    q: QueryParams,
    now: Timestamp,
    public_path: Seq<char>,
)
    ensures
        ({
            let page = get_slug_model(m, raw, q, now, public_path).0;
            page is Share ==> {
                &&& page->Share_slug == raw
                &&& page->Share_full_url == spec_share_url(public_path, raw)
                &&& page->Share_qr_svg == spec_string_to_qr_svg(page->Share_full_url)
            }
        }),
{
}

/// A visit fails only where it would count a paste whose showing count is full, or show a
/// share link that cannot be cut for the QR code; every other visit, at any time, can be
/// made.
pub proof fn law_visit_fails_only_on_full_count_or_long_link(
    m: Map<Seq<char>, PastaView>,
    raw: Seq<char>,
    q: QueryParams,
    now: Timestamp,
    public_path: Seq<char>,
)
    requires
        ({
            let slug = spec_normalize_slug(raw);
            !(raw == slug && slug_format_ok(slug) && !wants_share(q) && m.contains_key(slug)
                && !m[slug].allow_edit && m[slug].read_count == u64::MAX && !(m[slug].burn_after_reads
                > 0 && m[slug].read_count >= m[slug].burn_after_reads))
        }),
        ({
            let slug = spec_normalize_slug(raw);
            !(raw == slug && slug_format_ok(slug) && wants_share(q) && m.contains_key(slug)
                && !qr_input_can_be_cut(spec_share_url(public_path, slug)))
        }),
    ensures
        get_slug_ok(m, raw, q, public_path),
        get_slug_ok_at(m, raw, q, now, public_path),
{
}

/// An editable paste opens in the editor: a plain visit of its canonical, well-formed slug
/// can always be made, and, unless the paste has expired or reached its burn limit, shows
/// the editor filled with its content and leaves the store as it was.
pub proof fn law_editable_paste_opens_editor(
    m: Map<Seq<char>, PastaView>,
    raw: Seq<char>,
    q: QueryParams,
    now: Timestamp,
    public_path: Seq<char>,
)
    requires
        raw == spec_normalize_slug(raw),
        slug_format_ok(raw),
        !wants_share(q),
        m.contains_key(raw),
        m[raw].allow_edit,
    ensures
        get_slug_ok(m, raw, q, public_path),
        get_slug_ok_at(m, raw, q, now, public_path),
        !(m[raw].expiration matches Some(e) && e.at_or_before(now)) && !(m[raw].burn_after_reads > 0
            && m[raw].read_count >= m[raw].burn_after_reads) ==> get_slug_model(m, raw, q, now, public_path)
            == (SlugPageView::Edit { slug: raw, content: m[raw].content }, m),
{
}


/// The shape of a share link: with no public path it points at
/// `http://localhost:8080/<slug>`; a public path that names a scheme and does not end
/// with `/` is used as it is, and one without a scheme gets `https://` in front.
pub proof fn law_share_link_shape(public_path: Seq<char>, slug: Seq<char>)
    ensures
        public_path.len() == 0 ==> spec_share_url(public_path, slug) == "http://localhost:8080"@ + "/"@
            + slug,
        public_path.len() > 0 && public_path.last() != '/' && contains_piece(public_path, "://"@)
            ==> spec_share_url(public_path, slug) == public_path + "/"@ + slug,
        public_path.len() > 0 && public_path.last() != '/' && !contains_piece(public_path, "://"@)
            ==> spec_share_url(public_path, slug) == "https://"@ + public_path + "/"@ + slug,
{
    reveal_strlit("http://localhost:8080");
    reveal_strlit("https://");
    let base = "http://localhost:8080"@;
    assert(base.last() == '0');
    if public_path.len() > 0 {
        let with_scheme = "https://"@ + public_path;
        assert(with_scheme.last() == public_path.last());
    }
}

} // verus!
