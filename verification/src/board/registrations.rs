//! Registrations.

use super::{identity_sought, text_of, App, AppView};
use crate::bucket::{Bucket, Draw, Level, Rate};
use crate::clock::Moment;
use crate::config::Config;
use crate::digest::{random_salt, sha256};
use crate::identity::{
    admitted, is_name, is_pass, law_names, law_passphrases, pointee, valid_name, valid_pass, Identity,
};
use crate::memory::{get_address_or, get_identity_or, put_address, recalled, Address};
use crate::reject::{Reject, RejectView};
use crate::reply::RegisterReply;
use crate::request::Params;
use std::sync::Arc;
use vstd::prelude::*;
use vstd::utf8::encode_utf8;

verus! {

/// A registration on its way.
pub struct Registering {
    pub name: String,
    pub pass: String,
    pub ip: Address,
    /// The address's bucket as it stood.
    pub bucket: Bucket,
    pub at: Moment,
}

/// Where a registration stands.
pub enum RegisterStep {
    /// It is turned down.
    Refused(Reject),
    /// The identity was registered before, with the same passphrase.
    Known(RegisterReply),
    /// It goes on once the level of the address's bucket is known.
    Draw(Draw, Registering),
}

/// Whether a step turns a registration down for the given reason.
pub open spec fn not_registered(step: RegisterStep, reject: RejectView) -> bool {
    step matches RegisterStep::Refused(given) && given@ == reject
}

/// The draw on the bucket of an address.
pub open spec fn registration_draw(config: Config, bucket: Bucket, at: Moment) -> Draw {
    Draw {
        bucket,
        rate: Rate::PerHour(config.registrations_per_hour),
        burst: config.registrations_per_hour,
        at: at.clock,
    }
}

/// The name and the passphrase to register, or what is wrong with them.
pub open spec fn wanted_pair(name: Option<Seq<char>>, pass: Option<Seq<char>>) -> Result<
    (Seq<char>, Seq<char>),
    RejectView,
> {
    match (name, pass) {
        (Some(name), Some(pass)) => if !is_name(name) {
            Err(RejectView::Bad("name must be 1 to 32 characters from a-z A-Z 0-9 _ -"@))
        } else if !is_pass(pass) {
            Err(RejectView::Bad("pass must be 8 to 128 bytes"@))
        } else {
            Ok((name, pass))
        },
        _ => Err(RejectView::Bad("name and pass are required"@)),
    }
}

/// Whether the registration of a name that was looked for opens with `step`
/// and takes the board from `pre` to `post`.
pub open spec fn register_decided(
    pre: AppView,
    post: AppView,
    ip: Address,
    name: Seq<char>,
    pass: Seq<char>,
    at: Moment,
    step: RegisterStep,
) -> bool {
    let config = pre.config;
    match recalled(pre.identities, name) {
        Some(identity) => post == pre && if identity.opens(pass) {
            step matches RegisterStep::Known(reply) && reply.describes(
                &config,
                identity,
                true,
                pass,
                at.now,
            )
        } else {
            not_registered(step, RejectView::NameTaken)
        },
        None => step matches RegisterStep::Draw(draw, next) && {
            &&& draw == registration_draw(config, next.bucket, at)
            &&& next.name@ == name
            &&& next.pass@ == pass
            &&& next.ip == ip
            &&& next.at == at
            &&& post == AppView { ips: post.ips, ..pre }
            &&& {
                ||| next.bucket == (Bucket {
                    tokens: config.registrations_per_hour,
                    last: at.clock,
                }) && post.ips == pre.ips.insert(ip, next.bucket)
                ||| pre.ips.contains_key(ip) && next.bucket == pre.ips[ip] && post.ips == pre.ips
            }
        },
    }
}

/// Whether a registration opens with `step` and takes the board from `pre` to
/// `post`.
pub open spec fn register_opens(
    pre: AppView,
    post: AppView,
    ip: Address,
    params: &Params,
    at: Moment,
    step: RegisterStep,
) -> bool {
    match wanted_pair(text_of(params.name), text_of(params.pass)) {
        Err(reject) => post == pre && not_registered(step, reject),
        Ok((name, pass)) => {
            let mid = AppView { identities: post.identities, ..pre };
            &&& identity_sought(pre, mid, Some(name))
            &&& register_decided(mid, post, ip, name, pass, at, step)
        },
    }
}

/// Whether the level of the address's bucket ends a registration in `result`
/// and takes the board from `pre` to `post`. `fresh` is the identity that the
/// registration made. Where one was registered under the name meanwhile, it is
/// that identity for whoever knows its passphrase, and taken for everyone
/// else.
pub open spec fn address_drawn(
    pre: AppView,
    post: AppView,
    registering: Registering,
    level: Level,
    fresh: Identity,
    result: Result<RegisterReply, Reject>,
) -> bool {
    let name = registering.name@;
    let pass = registering.pass@;
    let at = registering.at;
    let ips = pre.ips.insert(registering.ip, registering.bucket.after(level, at.clock));
    match level.outcome() {
        Err(secs) => {
            &&& post == AppView { ips, ..pre }
            &&& result matches Err(reject) && reject@ == RejectView::Limited("registration"@, secs)
        },
        Ok(_) => {
            let bucket = Bucket { tokens: pre.config.post_burst.or_one(), last: at.clock };
            &&& fresh.fresh(pre.next_id, name, at.now, pass, bucket)
            &&& {
                ||| {
                    &&& post == AppView {
                        ips,
                        identities: pre.identities.insert(name, fresh),
                        next_id: (pre.next_id + 1) as u64,
                        ..pre
                    }
                    &&& result matches Ok(reply) && reply.describes(
                        &pre.config,
                        fresh,
                        false,
                        pass,
                        at.now,
                    )
                }
                ||| {
                    &&& post == AppView { ips, next_id: (pre.next_id + 1) as u64, ..pre }
                    &&& pre.identities.contains_key(name)
                    &&& if pre.identities[name].opens(pass) {
                        result matches Ok(reply) && reply.describes(
                            &pre.config,
                            pre.identities[name],
                            true,
                            pass,
                            at.now,
                        )
                    } else {
                        result matches Err(reject) && reject@ == RejectView::NameTaken
                    }
                }
            }
        },
    }
}

/// The name and the passphrase to register.
pub fn wanted(params: Params) -> (r: Result<(String, String), Reject>)
    ensures
        match r {
            Ok((name, pass)) => wanted_pair(text_of(params.name), text_of(params.pass)) == Ok::<
                _,
                RejectView,
            >((name@, pass@)),
            Err(reject) => wanted_pair(text_of(params.name), text_of(params.pass)) == Err::<
                (Seq<char>, Seq<char>),
                _,
            >(reject@),
        },
{
    let (name, pass) = match (params.name, params.pass) {
        (Some(name), Some(pass)) => (name, pass),
        _ => {
            return Err(Reject::Bad("name and pass are required".to_owned()));
        },
    };
    if !valid_name(name.as_str()) {
        return Err(Reject::Bad("name must be 1 to 32 characters from a-z A-Z 0-9 _ -".to_owned()));
    }
    if !valid_pass(pass.as_str()) {
        return Err(Reject::Bad("pass must be 8 to 128 bytes".to_owned()));
    }
    Ok((name, pass))
}

impl App {
    /// Opens the registration of a name that was looked for.
    pub fn open_registration(
        &mut self,
        found: Option<Arc<Identity>>,
        name: String,
        pass: String,
        ip: Address,
        at: Moment,
    ) -> (step: RegisterStep)
        requires
            old(self)@.well_formed(),
            pointee(found) == recalled(old(self)@.identities, name@),
        ensures
            final(self)@.well_formed(),
            register_decided(old(self)@, final(self)@, ip, name@, pass@, at, step),
    {
        if let Some(identity) = found {
            return if identity.accepts(pass.as_str()) {
                RegisterStep::Known(
                    RegisterReply::new(&self.config, &identity, true, pass.as_str(), at.now),
                )
            } else {
                RegisterStep::Refused(Reject::NameTaken)
            };
        }
        let full = Bucket::full(self.config.registrations_per_hour, at.clock);
        let bucket = get_address_or(&mut self.ips, ip, full);
        let draw = Draw {
            bucket,
            rate: Rate::PerHour(self.config.registrations_per_hour),
            burst: self.config.registrations_per_hour,
            at: at.clock,
        };
        assert(self@ == AppView { ips: self@.ips, ..old(self)@ });
        RegisterStep::Draw(draw, Registering { name, pass, ip, bucket, at })
    }

    /// Opens a registration: checks the name and the passphrase, and whether
    /// the name is taken.
    pub fn register(&mut self, ip: Address, params: Params, at: Moment) -> (step: RegisterStep)
        requires
            old(self)@.well_formed(),
        ensures
            final(self)@.well_formed(),
            register_opens(old(self)@, final(self)@, ip, &params, at, step),
    {
        match wanted(params) {
            Err(reject) => RegisterStep::Refused(reject),
            Ok((name, pass)) => {
                let found = self.find_identity(name.as_str());
                let ghost mid = self@;
                let step = self.open_registration(found, name, pass, ip, at);
                assert(mid == AppView { identities: self@.identities, ..old(self)@ });
                step
            },
        }
    }

    /// Whether there is a number left for another identity.
    pub fn can_enroll(&self) -> (r: bool)
        ensures
            r == (self@.next_id < u64::MAX),
    {
        self.next_id < u64::MAX
    }

    /// Ends a registration once the level of the address's bucket is known.
    pub fn enroll(&mut self, registering: Registering, level: Level) -> (r: Result<
        RegisterReply,
        Reject,
    >)
        requires
            old(self)@.well_formed(),
            old(self)@.next_id < u64::MAX,
        ensures
            final(self)@.well_formed(),
            exists|fresh: Identity| #[trigger]
                address_drawn(old(self)@, final(self)@, registering, level, fresh, r),
    {
        let ghost given = registering;
        let Registering { name, pass, ip, bucket, at } = registering;
        let mut bucket = bucket;
        let taken = bucket.take(level, at.clock);
        put_address(&mut self.ips, ip, bucket);
        if let Err(secs) = taken {
            let r: Result<RegisterReply, Reject> = Err(Reject::Limited("registration", secs));
            let ghost nobody: Identity = arbitrary();
            assert(address_drawn(old(self)@, self@, given, level, nobody, r));
            return r;
        }
        let id: u64 = self.next_id;
        self.next_id = id + 1;
        let first = Bucket::full(self.config.post_burst.at_least_one(), at.clock);
        let salt = random_salt();
        let fresh = Arc::new(
            Identity::new(id, name.clone(), at.now, salt, pass.as_str(), first),
        );
        let stored = get_identity_or(&mut self.identities, name, fresh.clone());
        let r = if stored.id == fresh.id {
            Ok(RegisterReply::new(&self.config, &stored, false, pass.as_str(), at.now))
        } else if stored.accepts(pass.as_str()) {
            Ok(RegisterReply::new(&self.config, &stored, true, pass.as_str(), at.now))
        } else {
            Err(Reject::NameTaken)
        };
        assert(address_drawn(old(self)@, self@, given, level, *fresh, r));
        r
    }
}

// -------------------------------------------------------------------- laws

/// Whoever has registered is remembered, as new, and is let in with the same
/// passphrase.
pub proof fn law_registered_is_recognised(
    pre: AppView,
    post: AppView,
    registering: Registering,
    level: Level,
    fresh: Identity,
    result: Result<RegisterReply, Reject>,
)
    requires
        address_drawn(pre, post, registering, level, fresh, result),
        result is Ok,
        !pre.identities.contains_key(registering.name@),
    ensures
        post.identities.contains_key(registering.name@),
        post.identities[registering.name@] == fresh,
        fresh.name@ == registering.name@,
        fresh.since == registering.at.now,
        fresh.topics == 0,
        admitted(Some(fresh), registering.pass@) == Ok::<Identity, RejectView>(fresh),
{
}

/// A registration that is turned down registers nobody.
pub proof fn law_refused_registration_registers_nobody(
    pre: AppView,
    post: AppView,
    registering: Registering,
    level: Level,
    fresh: Identity,
    result: Result<RegisterReply, Reject>,
)
    requires
        address_drawn(pre, post, registering, level, fresh, result),
        result is Err,
        !pre.identities.contains_key(registering.name@),
    ensures
        post.identities == pre.identities,
        !level.yields(),
        result matches Err(reject) && reject@.retry_after() == Some(level.delay),
{
}

/// Of two registrations of one pair that are under way together, both are
/// accepted: the first as new, and the second, as long as the first is held,
/// as the same identity again.
pub proof fn law_one_pair_registers_once(
    first: (AppView, AppView, Registering, Level, Identity, RegisterReply),
    second: (AppView, AppView, Registering, Level, Identity, Result<RegisterReply, Reject>),
)
    requires
        address_drawn(first.0, first.1, first.2, first.3, first.4, Ok(first.5)),
        !first.0.identities.contains_key(first.2.name@),
        second.0.well_formed(),
        address_drawn(second.0, second.1, second.2, second.3, second.4, second.5),
        second.3.yields(),
        second.2.name@ == first.2.name@,
        second.2.pass@ == first.2.pass@,
        second.0.identities.contains_key(first.2.name@),
        second.0.identities[first.2.name@] == first.1.identities[first.2.name@],
        second.1.identities == second.0.identities,
    ensures
        !first.5.existing,
        second.5 matches Ok(reply) && reply.existing && reply.since == first.5.since,
{
}

/// A pair that matches what is held is never answered that the name is taken.
pub proof fn law_matching_pair_is_not_taken(
    pre: AppView,
    post: AppView,
    registering: Registering,
    level: Level,
    fresh: Identity,
    result: Result<RegisterReply, Reject>,
)
    requires
        address_drawn(pre, post, registering, level, fresh, result),
        pre.identities.contains_key(registering.name@),
        pre.identities[registering.name@].opens(registering.pass@),
    ensures
        level.yields() ==> result is Ok,
        result matches Err(reject) ==> !(reject@ is NameTaken),
{
}

/// Registering a name that is held draws on no bucket and changes nothing: it
/// is the same identity again for whoever knows the passphrase, and taken for
/// everyone else.
pub proof fn law_registering_again_is_free(
    pre: AppView,
    post: AppView,
    ip: Address,
    params: Params,
    at: Moment,
    step: RegisterStep,
    name: Seq<char>,
    pass: Seq<char>,
)
    requires
        register_opens(pre, post, ip, &params, at, step),
        wanted_pair(text_of(params.name), text_of(params.pass)) == Ok::<_, RejectView>((name, pass)),
        post.identities.contains_key(name),
    ensures
        post == pre,
        if pre.identities[name].opens(pass) {
            step matches RegisterStep::Known(reply) && reply.existing && reply.since
                == pre.identities[name].since && reply.limits.topics_created
                == pre.identities[name].topics
        } else {
            not_registered(step, RejectView::NameTaken)
        },
{
}

/// Each address has a bucket of its own: a registration leaves those of all
/// other addresses as they were.
pub proof fn law_addresses_are_apart(
    pre: AppView,
    post: AppView,
    registering: Registering,
    level: Level,
    fresh: Identity,
    result: Result<RegisterReply, Reject>,
    other: Address,
)
    requires
        address_drawn(pre, post, registering, level, fresh, result),
        other != registering.ip,
    ensures
        pre.ips.contains_key(other) == post.ips.contains_key(other),
        pre.ips.contains_key(other) ==> post.ips[other] == pre.ips[other],
{
}

/// A name and a passphrase can be registered exactly if the name is one to
/// thirty-two letters, digits, underscores and hyphens, and the passphrase
/// eight to a hundred and twenty-eight bytes. What is amiss is told: first
/// what is missing, then the name, then the passphrase.
pub proof fn law_wanted_pairs(name: Option<Seq<char>>, pass: Option<Seq<char>>)
    ensures
        ({
            let good_name = name is Some && 1 <= name->0.len() <= 32 && forall|i: int|
                0 <= i < name->0.len() ==> {
                    ||| '0' <= #[trigger] name->0[i] <= '9'
                    ||| 'A' <= name->0[i] <= 'Z'
                    ||| 'a' <= name->0[i] <= 'z'
                    ||| name->0[i] == '_'
                    ||| name->0[i] == '-'
                };
            let good_pass = pass is Some && 8 <= encode_utf8(pass->0).len() <= 128;
            let pair = wanted_pair(name, pass);
            &&& pair is Ok <==> good_name && good_pass
            &&& pair matches Ok(given) ==> given.0 == name->0 && given.1 == pass->0
            &&& name is None || pass is None ==> pair == Err::<(Seq<char>, Seq<char>), RejectView>(
                RejectView::Bad("name and pass are required"@),
            )
            &&& name is Some && pass is Some && !good_name ==> pair == Err::<
                (Seq<char>, Seq<char>),
                RejectView,
            >(RejectView::Bad("name must be 1 to 32 characters from a-z A-Z 0-9 _ -"@))
            &&& good_name && pass is Some && !good_pass ==> pair == Err::<
                (Seq<char>, Seq<char>),
                RejectView,
            >(RejectView::Bad("pass must be 8 to 128 bytes"@))
        }),
{
    if name is Some {
        law_names(name->0);
    }
    if pass is Some {
        law_passphrases(pass->0);
    }
}

/// The draw of a registration is on the bucket of the address that asks, which
/// fills by the hour and holds an hour's worth. An address that is not held
/// starts with a full one.
pub proof fn law_registrations_draw_by_address(
    pre: AppView,
    post: AppView,
    ip: Address,
    params: Params,
    at: Moment,
    draw: Draw,
    registering: Registering,
)
    requires
        register_opens(pre, post, ip, &params, at, RegisterStep::Draw(draw, registering)),
    ensures
        draw.rate == Rate::PerHour(pre.config.registrations_per_hour),
        draw.burst == pre.config.registrations_per_hour,
        draw.at == at.clock,
        draw.bucket == registering.bucket,
        post.ips.contains_key(ip),
        post.ips[ip] == draw.bucket,
        !pre.ips.contains_key(ip) ==> draw.bucket.tokens == pre.config.registrations_per_hour
            && draw.bucket.last == at.clock,
        pre.ips.contains_key(ip) && draw.bucket != pre.ips[ip] ==> draw.bucket.tokens
            == pre.config.registrations_per_hour && draw.bucket.last == at.clock,
        registering.ip == ip,
        registering.at == at,
        params.name matches Some(name) && registering.name@ == name@ && !post.identities.contains_key(
            name@,
        ),
        params.pass matches Some(pass) && registering.pass@ == pass@,
{
}

/// A registration is answered at once exactly if the pair cannot be
/// registered or the name is held: as known to whoever gives its passphrase,
/// and as taken to everyone else.
pub proof fn law_registration_opening(
    pre: AppView,
    post: AppView,
    ip: Address,
    params: Params,
    at: Moment,
    step: RegisterStep,
    name: Seq<char>,
    pass: Seq<char>,
)
    requires
        register_opens(pre, post, ip, &params, at, step),
        wanted_pair(text_of(params.name), text_of(params.pass)) == Ok::<_, RejectView>((name, pass)),
    ensures
        step is Draw <==> !post.identities.contains_key(name),
        post.identities.contains_key(name) ==> {
            let held = pre.identities[name];
            let opens = sha256(held.salt@ + encode_utf8(pass)) == held.hash@;
            &&& post == pre
            &&& opens ==> (step matches RegisterStep::Known(reply) && reply.ok && reply.existing
                && reply.name@ == held.name@ && reply.since == held.since && reply.server_time
                == at.now)
            &&& !opens ==> not_registered(step, RejectView::NameTaken)
        },
{
}

/// A registration is accepted only for a token of the address's bucket, which
/// is gone then, whoever holds the name; where there is none, the registration
/// is told how long to wait, and makes no identity.
pub proof fn law_registrations_take_tokens(
    pre: AppView,
    post: AppView,
    registering: Registering,
    level: Level,
    fresh: Identity,
    result: Result<RegisterReply, Reject>,
)
    requires
        address_drawn(pre, post, registering, level, fresh, result),
    ensures
        ({
            let yields = 0x3ff0_0000_0000_0000 <= level.tokens.bits <= 0x7ff0_0000_0000_0000;
            &&& post.ips.contains_key(registering.ip)
            &&& post.ips[registering.ip].last == registering.at.clock
            &&& post.ips[registering.ip].tokens == (if yields {
                level.spent
            } else {
                level.tokens
            })
            &&& !yields ==> {
                &&& post == AppView { ips: post.ips, ..pre }
                &&& result matches Err(reject) && reject@ == RejectView::Limited(
                    "registration"@,
                    level.delay,
                )
            }
            &&& yields ==> (result matches Err(reject) ==> reject@ is NameTaken)
        }),
{
}

/// A new identity has the next number, the name and the time of the request,
/// is opened by its passphrase, has created no topic, and may post at once:
/// its bucket holds as many tokens as the settings give, or one where they
/// give less than one.
pub proof fn law_new_identities(
    pre: AppView,
    post: AppView,
    registering: Registering,
    level: Level,
    fresh: Identity,
    reply: RegisterReply,
)
    requires
        address_drawn(pre, post, registering, level, fresh, Ok(reply)),
        !reply.existing,
        pre.next_id < u64::MAX,
    ensures
        post.identities == pre.identities.insert(registering.name@, fresh),
        post.next_id == pre.next_id + 1,
        fresh.id == pre.next_id,
        fresh.name@ == registering.name@,
        fresh.since == registering.at.now,
        fresh.topics == 0,
        sha256(fresh.salt@ + encode_utf8(registering.pass@)) == fresh.hash@,
        fresh.bucket.last == registering.at.clock,
        0x3ff0_0000_0000_0000 <= pre.config.post_burst.bits <= 0x7ff0_0000_0000_0000
            ==> fresh.bucket.tokens == pre.config.post_burst,
        pre.config.post_burst.bits < 0x3ff0_0000_0000_0000 ==> fresh.bucket.tokens.bits
            == 0x3ff0_0000_0000_0000,
        reply.ok,
        reply.name@ == registering.name@,
        reply.since == registering.at.now,
        reply.limits.topics_created == 0,
{
}

/// No two identities have the same number: a new one gets a number that no
/// identity of the board has.
pub proof fn law_numbers_are_new(
    pre: AppView,
    post: AppView,
    registering: Registering,
    level: Level,
    fresh: Identity,
    reply: RegisterReply,
    other: Seq<char>,
)
    requires
        pre.well_formed(),
        address_drawn(pre, post, registering, level, fresh, Ok(reply)),
        !reply.existing,
        pre.identities.contains_key(other),
    ensures
        fresh.id != pre.identities[other].id,
{
}

} // verus!
