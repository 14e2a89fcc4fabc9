//! Answering a chat message: the reply of the language model is read, the actions
//! it asks for are carried out in their order, and the outcomes are reported.
use crate::error::{AppError, AppErrorView};
use crate::executor::{
    action_done, execute_action_with, execute_global_action_with, global_action_done,
};
use crate::ids::fresh_id;
use crate::models::chat::{
    outcomes, requests, ActionTaken, ChatAction, ChatResponse, LlmAction, Outcome, Request,
};
use crate::parser::{parse_llm_response, parsed};
use crate::position::Id;
use crate::store::Store;
use crate::text::{chars_of, contains_text, occurs_in, trim_bounds, trim_of};
use vstd::prelude::*;
use vstd::string::*;

verus! {

/// Whether the request is attempted and reported. One that only reads is passed
/// over.
pub open spec fn reported(req: Request) -> bool {
    !ChatAction::of_name(req.action).is_read_only()
}

/// How many of the requests are reported.
pub open spec fn reported_count(reqs: Seq<Request>) -> nat
    decreases reqs.len(),
{
    if reqs.len() == 0 {
        0
    } else {
        reported_count(reqs.drop_last()) + if reported(reqs.last()) {
            1nat
        } else {
            0nat
        }
    }
}

/// What one request does: on the board `scope`, or in the global chat where there
/// is none.
pub open spec fn one_done(
    scope: Option<Id>,
    before: Store,
    after: Store,
    user: Id,
    req: Request,
    new_id: Id,
    result: Result<ActionTaken, AppError>,
) -> bool {
    match scope {
        Some(board) => action_done(before, after, board, user, req, new_id, result),
        None => global_action_done(before, after, user, req, new_id, result),
    }
}

/// What a batch of requests does. The requests are attempted in their order, each
/// on the store as the one before left it, and `report` holds the outcome of each
/// that is reported, in the same order. The request with the index `i` creates
/// its record, if it creates one, under the identifier `ids[i]`.
pub open spec fn batch_done(
    scope: Option<Id>,
    before: Store,
    after: Store,
    user: Id,
    reqs: Seq<Request>,
    ids: Seq<Id>,
    report: Seq<Outcome>,
) -> bool
    decreases reqs.len(),
{
    if reqs.len() == 0 {
        after == before && report.len() == 0
    } else if !reported(reqs.last()) {
        batch_done(scope, before, after, user, reqs.drop_last(), ids.drop_last(), report)
    } else {
        report.len() > 0 && exists|mid: Store, t: ActionTaken|
            {
                &&& batch_done(
                    scope,
                    before,
                    mid,
                    user,
                    reqs.drop_last(),
                    ids.drop_last(),
                    report.drop_last(),
                )
                &&& #[trigger] one_done(scope, mid, after, user, reqs.last(), ids.last(), Ok(t))
                &&& t@ == report.last()
            }
    }
}

/// What a batch that ends in an error did: the requests before some request were
/// carried out, and that request ended in the error.
pub open spec fn batch_failed(
    scope: Option<Id>,
    before: Store,
    user: Id,
    reqs: Seq<Request>,
    ids: Seq<Id>,
    err: AppError,
) -> bool {
    exists|k: int, mid: Store, report: Seq<Outcome>|
        {
            &&& 0 <= k < reqs.len()
            &&& reported(reqs[k])
            &&& #[trigger] batch_done(scope, before, mid, user, reqs.take(k), ids.take(k), report)
            &&& one_done(scope, mid, mid, user, reqs[k], ids[k], Err(err))
        }
}

/// A batch reports one outcome for each of its requests that is attempted.
pub proof fn law_one_outcome_each(
    scope: Option<Id>,
    before: Store,
    after: Store,
    user: Id,
    reqs: Seq<Request>,
    ids: Seq<Id>,
    report: Seq<Outcome>,
)
    requires
        batch_done(scope, before, after, user, reqs, ids, report),
    ensures
        report.len() == reported_count(reqs),
    decreases reqs.len(),
{
    if reqs.len() > 0 {
        if !reported(reqs.last()) {
            law_one_outcome_each(
                scope,
                before,
                after,
                user,
                reqs.drop_last(),
                ids.drop_last(),
                report,
            );
        } else {
            let (mid, t) = choose|mid: Store, t: ActionTaken|
                {
                    &&& batch_done(
                        scope,
                        before,
                        mid,
                        user,
                        reqs.drop_last(),
                        ids.drop_last(),
                        report.drop_last(),
                    )
                    &&& #[trigger] one_done(
                        scope,
                        mid,
                        after,
                        user,
                        reqs.last(),
                        ids.last(),
                        Ok(t),
                    )
                    &&& t@ == report.last()
                };
            law_one_outcome_each(
                scope,
                before,
                mid,
                user,
                reqs.drop_last(),
                ids.drop_last(),
                report.drop_last(),
            );
        }
    }
}

/// Carries out a batch of requests, in their order: on the board `scope`, or in
/// the global chat where there is none. The request with the index `i` creates its
/// record, if it creates one, under the identifier `ids[i]`. An error ends the
/// batch, and the store as it was is then the one to go on with.
pub fn run_batch_with(
    store: Store,
    scope: Option<Id>,
    user_id: Id,
    actions: &Vec<LlmAction>,
    ids: &Vec<Id>,
) -> (result: Result<(Store, Vec<ActionTaken>), AppError>)
    requires
        store.wf(),
        ids.len() == actions.len(),
    ensures
        match result {
            Ok((after, report)) => after.wf() && batch_done(
                scope,
                store,
                after,
                user_id,
                requests(actions@),
                ids@,
                outcomes(report@),
            ) && report.len() == reported_count(requests(actions@)),
            Err(err) => batch_failed(scope, store, user_id, requests(actions@), ids@, err),
        },
{
    let ghost reqs = requests(actions@);
    let mut current = store;
    let mut report: Vec<ActionTaken> = Vec::new();
    let mut i: usize = 0;
    proof {
        assert(reqs.take(0) =~= Seq::<Request>::empty());
        assert(outcomes(report@) =~= Seq::<Outcome>::empty());
    }
    while i < actions.len()
        invariant
            current.wf(),
            i <= actions.len(),
            ids.len() == actions.len(),
            reqs == requests(actions@),
            batch_done(
                scope,
                store,
                current,
                user_id,
                reqs.take(i as int),
                ids@.take(i as int),
                outcomes(report@),
            ),
        decreases actions.len() - i,
    {
        let ghost mid = current;
        let ghost so_far = outcomes(report@);
        let kind = match ChatAction::from_str(actions[i].action.as_str()) {
            Ok(kind) => kind,
            Err(_) => ChatAction::Unknown,
        };
        proof {
            assert(reqs.take(i + 1).drop_last() =~= reqs.take(i as int));
            assert(ids@.take(i + 1).drop_last() =~= ids@.take(i as int));
            assert(reqs.take(i + 1).last() == actions@[i as int]@);
            assert(ids@.take(i + 1).last() == ids@[i as int]);
        }
        if !kind.is_read_only() {
            let result = match scope {
                Some(board) => execute_action_with(&mut current, board, user_id, &actions[i], ids[i]),
                None => execute_global_action_with(&mut current, user_id, &actions[i], ids[i]),
            };
            match result {
                Err(err) => {
                    proof {
                        crate::executor::lemma_error_changes_nothing(
                            scope,
                            mid,
                            current,
                            user_id,
                            actions@[i as int]@,
                            ids@[i as int],
                            result,
                        );
                        assert(reqs[i as int] == actions@[i as int]@);
                        assert(current == mid);
                        assert(one_done(
                            scope,
                            mid,
                            mid,
                            user_id,
                            reqs[i as int],
                            ids@[i as int],
                            Err(err),
                        ));
                        assert(batch_done(
                            scope,
                            store,
                            mid,
                            user_id,
                            reqs.take(i as int),
                            ids@.take(i as int),
                            so_far,
                        ));
                        assert(batch_failed(scope, store, user_id, reqs, ids@, err));
                    }
                    return Err(err);
                },
                Ok(taken) => {
                    proof {
                        assert(one_done(
                            scope,
                            mid,
                            current,
                            user_id,
                            reqs.take(i + 1).last(),
                            ids@.take(i + 1).last(),
                            Ok(taken),
                        ));
                    }
                    report.push(taken);
                    proof {
                        assert(outcomes(report@).drop_last() =~= so_far);
                        assert(outcomes(report@).last() == taken@);
                    }
                },
            }
        }
        i += 1;
    }
    proof {
        assert(reqs.take(i as int) =~= reqs);
        assert(ids@.take(i as int) =~= ids@);
        law_one_outcome_each(scope, store, current, user_id, reqs, ids@, outcomes(report@));
    }
    Ok((current, report))
}

/// Carries out a batch of requests like `run_batch_with`, with new random
/// identifiers: whatever they are, the batch is carried out as `run_batch_with`
/// says for them.
pub fn run_batch(store: Store, scope: Option<Id>, user_id: Id, actions: &Vec<LlmAction>) -> (result:
    Result<(Store, Vec<ActionTaken>), AppError>)
    requires
        store.wf(),
    ensures
        match result {
            Ok((after, report)) => after.wf() && report.len() == reported_count(
                requests(actions@),
            ) && exists|ids: Seq<Id>| #[trigger]
                batch_done(
                    scope,
                    store,
                    after,
                    user_id,
                    requests(actions@),
                    ids,
                    outcomes(report@),
                ),
            Err(err) => exists|ids: Seq<Id>| #[trigger]
                batch_failed(scope, store, user_id, requests(actions@), ids, err),
        },
{
    let mut ids: Vec<Id> = Vec::new();
    while ids.len() < actions.len()
        invariant
            ids.len() <= actions.len(),
        decreases actions.len() - ids.len(),
    {
        ids.push(fresh_id());
    }
    run_batch_with(store, scope, user_id, actions, &ids)
}

/// Whether some request comes with a message.
pub open spec fn any_said(reqs: Seq<Request>) -> bool
    decreases reqs.len(),
{
    reqs.len() > 0 && (reqs.last().message.len() > 0 || any_said(reqs.drop_last()))
}

/// The messages that the requests come with, those that say something, in their
/// order, with one space between two.
pub open spec fn said(reqs: Seq<Request>) -> Seq<char>
    decreases reqs.len(),
{
    if reqs.len() == 0 {
        Seq::<char>::empty()
    } else if reqs.last().message.len() == 0 {
        said(reqs.drop_last())
    } else if any_said(reqs.drop_last()) {
        said(reqs.drop_last()) + " "@ + reqs.last().message
    } else {
        reqs.last().message
    }
}

/// Whether a text looks like the raw form of a request.
pub open spec fn looks_raw(t: Seq<char>) -> bool {
    (t.len() > 0 && t[0] == '{') || occurs_in(t, "\"action\""@)
}

/// The reply that the user is shown: the messages of the requests where they say
/// something; else a stock phrase where the reply of the model looks like a raw
/// request; else the reply of the model as it is.
pub open spec fn readable(response: Seq<char>, reqs: Seq<Request>) -> Seq<char> {
    if any_said(reqs) {
        said(reqs)
    } else if looks_raw(trim_of(response)) {
        "Processing your request..."@
    } else {
        response
    }
}

/// Extract a readable message from the LLM response, cleaning up raw JSON.
pub fn extract_readable_message(response: &str, actions: &Vec<LlmAction>) -> (message: String)
    ensures
        message@ == readable(response@, requests(actions@)),
{
    let ghost reqs = requests(actions@);
    let mut message = String::new();
    let mut any: bool = false;
    let mut i: usize = 0;
    proof {
        assert(reqs.take(0) =~= Seq::<Request>::empty());
    }
    while i < actions.len()
        invariant
            i <= actions.len(),
            reqs == requests(actions@),
            any == any_said(reqs.take(i as int)),
            message@ == said(reqs.take(i as int)),
        decreases actions.len() - i,
    {
        proof {
            assert(reqs.take(i + 1).drop_last() =~= reqs.take(i as int));
            assert(reqs.take(i + 1).last() == actions@[i as int]@);
        }
        if actions[i].message.as_str().unicode_len() > 0 {
            if any {
                message.append(" ");
                message.append(actions[i].message.as_str());
            } else {
                message = actions[i].message.clone();
            }
            any = true;
        }
        i += 1;
    }
    proof {
        assert(reqs.take(i as int) =~= reqs);
    }
    if any {
        return message;
    }
    let whole = chars_of(response);
    let (from, to) = trim_bounds(&whole);
    let starts_raw: bool = from < to && whole[from] == '{';
    let trimmed = crate::text::text_between(&whole, from, to);
    if starts_raw || contains_text(trimmed.as_str(), "\"action\"") {
        "Processing your request...".to_owned()
    } else {
        response.to_owned()
    }
}

/// What a chat message on a board is answered with, once the reply of the model
/// is there: the actions that the reply asks for are carried out for `user_id` in
/// their order. A user without a role on the board is turned away, and so is the
/// whole request when the store fails on one of its actions.
pub fn send_message(store: Store, board_id: Id, user_id: Id, llm_response: &str) -> (result: Result<
    (Store, ChatResponse),
    AppError,
>)
    requires
        store.wf(),
    ensures
        store.role(board_id, user_id) is None ==> (result matches Err(err) && err@
            == AppErrorView::Forbidden),
        match result {
            Ok((after, answer)) => {
                &&& store.role(board_id, user_id) is Some
                &&& after.wf()
                &&& answer.response@ == readable(llm_response@, parsed(llm_response@))
                &&& answer.actions_taken.len() == reported_count(parsed(llm_response@))
                &&& exists|ids: Seq<Id>| #[trigger]
                    batch_done(
                        Some(board_id),
                        store,
                        after,
                        user_id,
                        parsed(llm_response@),
                        ids,
                        outcomes(answer.actions_taken@),
                    )
            },
            Err(err) => store.role(board_id, user_id) is None || exists|ids: Seq<Id>| #[trigger]
                batch_failed(Some(board_id), store, user_id, parsed(llm_response@), ids, err),
        },
{
    if store.get_user_role(board_id, user_id).is_none() {
        return Err(AppError::Forbidden);
    }
    let actions = parse_llm_response(llm_response);
    let response = extract_readable_message(llm_response, &actions);
    match run_batch(store, Some(board_id), user_id, &actions) {
        Err(err) => Err(err),
        Ok((after, actions_taken)) => Ok((after, ChatResponse { response, actions_taken })),
    }
}

/// What a message in the global chat is answered with, once the reply of the model
/// is there: the actions that the reply asks for are carried out for `user_id` in
/// their order, each on the board that it names.
pub fn send_global_message(store: Store, user_id: Id, llm_response: &str) -> (result: Result<
    (Store, ChatResponse),
    AppError,
>)
    requires
        store.wf(),
    ensures
        match result {
            Ok((after, answer)) => {
                &&& after.wf()
                &&& answer.response@ == readable(llm_response@, parsed(llm_response@))
                &&& answer.actions_taken.len() == reported_count(parsed(llm_response@))
                &&& exists|ids: Seq<Id>| #[trigger]
                    batch_done(
                        None,
                        store,
                        after,
                        user_id,
                        parsed(llm_response@),
                        ids,
                        outcomes(answer.actions_taken@),
                    )
            },
            Err(err) => exists|ids: Seq<Id>| #[trigger]
                batch_failed(None, store, user_id, parsed(llm_response@), ids, err),
        },
{
    let actions = parse_llm_response(llm_response);
    let response = extract_readable_message(llm_response, &actions);
    match run_batch(store, None, user_id, &actions) {
        Err(err) => Err(err),
        Ok((after, actions_taken)) => Ok((after, ChatResponse { response, actions_taken })),
    }
}

} // verus!
