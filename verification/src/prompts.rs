//! The instructions that the language model is given with each message: who it
//! is, which actions it may ask for, and what the boards look like.
use crate::error::{AppError, AppErrorView};
use crate::handlers::boards::{board_tags, list_board_tags, refused};
use crate::models::board::BoardRole;
use crate::models::card::Card;
use crate::models::tag::Tag;
use crate::position::{Container, Id};
use crate::store::boards::visible_boards;
use crate::store::{has_board, Store};
use crate::text::{numeral, numeral_of};
use vstd::prelude::*;
use vstd::string::*;

verus! {

/// The actions that a board chat offers, each with an example.
pub const BOARD_EXAMPLES: &'static str = r##"
1. create_card - Create a new card
   {"action": "create_card", "params": {"column": "column_name", "title": "card title", "body": "optional description"}, "message": "Created card..."}

2. move_card - Move a card to another column
   {"action": "move_card", "params": {"card_title": "card to move", "target_column": "destination column"}, "message": "Moved card..."}

3. create_tag - Create a new tag
   {"action": "create_tag", "params": {"name": "tag name", "color": "#hex_color"}, "message": "Created tag..."}

4. add_tag - Add a tag to a card
   {"action": "add_tag", "params": {"card_title": "card title", "tag_name": "tag to add"}, "message": "Added tag..."}

5. list_cards - List cards (optionally filtered by column)
   {"action": "list_cards", "params": {"column": "optional column name"}, "message": "Here are the cards..."}

6. list_tags - List all tags on the board
   {"action": "list_tags", "params": {}, "message": "Here are the tags..."}

7. delete_column - Delete a column (and all its cards)
   {"action": "delete_column", "params": {"column": "column name"}, "message": "Deleted column..."}

8. delete_tag - Delete a tag from the board
   {"action": "delete_tag", "params": {"tag": "tag name"}, "message": "Deleted tag..."}

9. delete_card - Delete a card
   {"action": "delete_card", "params": {"card": "card title"}, "message": "Deleted card..."}

10. no_action - Just respond without taking action
   {"action": "no_action", "params": {}, "message": "Your response here..."}
"##;

/// The actions that the global chat offers, each with an example.
pub const GLOBAL_EXAMPLES: &'static str = r##"
1. create_board - Create a new board
   {"action": "create_board", "params": {"name": "board name", "description": "optional description"}, "message": "Created board..."}

2. create_card - Create a new card (specify board)
   {"action": "create_card", "params": {"board": "board name", "column": "column_name", "title": "card title", "body": "optional description"}, "message": "Created card..."}

3. move_card - Move a card to another column (within same board)
   {"action": "move_card", "params": {"board": "board name", "card_title": "card to move", "target_column": "destination column"}, "message": "Moved card..."}

4. move_card_cross_board - Move a card between boards
   {"action": "move_card_cross_board", "params": {"from_board": "source board", "to_board": "target board", "card": "card title", "column": "destination column"}, "message": "Moved card..."}

5. create_tag - Create a new tag (specify board)
   {"action": "create_tag", "params": {"board": "board name", "name": "tag name", "color": "#hex_color"}, "message": "Created tag..."}

6. add_tag - Add a tag to a card (specify board)
   {"action": "add_tag", "params": {"board": "board name", "card_title": "card title", "tag_name": "tag to add"}, "message": "Added tag..."}

7. list_cards - List cards from a board
   {"action": "list_cards", "params": {"board": "board name", "column": "optional column name"}, "message": "Here are the cards..."}

8. list_tags - List all tags on a board
   {"action": "list_tags", "params": {"board": "board name"}, "message": "Here are the tags..."}

9. delete_column - Delete a column (specify board)
   {"action": "delete_column", "params": {"board": "board name", "column": "column name"}, "message": "Deleted column..."}

10. delete_tag - Delete a tag (specify board)
   {"action": "delete_tag", "params": {"board": "board name", "tag": "tag name"}, "message": "Deleted tag..."}

11. delete_card - Delete a card (specify board)
   {"action": "delete_card", "params": {"board": "board name", "card": "card title"}, "message": "Deleted card..."}

12. no_action - Just respond without taking action
   {"action": "no_action", "params": {}, "message": "Your response here..."}
"##;

/// The texts of a list.
pub open spec fn texts(parts: Seq<String>) -> Seq<Seq<char>> {
    parts.map_values(|p: String| p@)
}

/// The parts with `sep` between every two of them.
pub open spec fn join_of(parts: Seq<Seq<char>>, sep: Seq<char>) -> Seq<char>
    decreases parts.len(),
{
    if parts.len() == 0 {
        Seq::<char>::empty()
    } else if parts.len() == 1 {
        parts[0]
    } else {
        join_of(parts.drop_last(), sep) + sep + parts.last()
    }
}

/// What the model is told of the user: the context that the user has given, under
/// a heading, or nothing where there is none.
pub open spec fn context_section(user_context: Option<Seq<char>>) -> Seq<char> {
    match user_context {
        Some(ctx) => if ctx.len() > 0 {
            "\nUser context:\n"@ + ctx + "\n"@
        } else {
            Seq::<char>::empty()
        },
        None => Seq::<char>::empty(),
    }
}

/// What the model is told of a column: its name and how many cards it holds.
pub open spec fn column_line(store: &Store, column: Id) -> Seq<char> {
    store.columns().get(column).name@ + " ("@ + numeral_of(
        store.cards().order(Container::Column(column)).len(),
    ) + " cards)"@
}

/// The names of the tags of `board`, in the order of their creation.
pub open spec fn tag_names(tags: Seq<Tag>, board: Id) -> Seq<Seq<char>> {
    tags.filter(|t: Tag| t.board_id == Some(board)).map_values(|t: Tag| t.name@)
}

/// The names of the tags of `board` with commas between them, or `none`.
pub open spec fn tag_list(store: &Store, board: Id) -> Seq<char> {
    if tag_names(store.tags(), board).len() == 0 {
        "none"@
    } else {
        join_of(tag_names(store.tags(), board), ", "@)
    }
}

/// The instructions for the chat of `board`.
pub open spec fn board_prompt(store: &Store, board: Id, user_context: Option<Seq<char>>) -> Seq<
    char,
> {
    let name = store.board(board).name@;
    let columns = store.columns().order(Container::Board(board));
    "You are a Kanban board assistant for the board \""@ + name + "\".\n"@ + context_section(
        user_context,
    ) + "\nYou can execute these actions by responding with JSON:\n"@ + BOARD_EXAMPLES@
        + "\nCurrent board state:\n- Board: "@ + name + "\n- Columns: "@ + join_of(
        columns.map_values(|c: Id| column_line(store, c)),
        ", "@,
    ) + "\n- Tags: "@ + tag_list(store, board)
        + "\n\nIMPORTANT: Always respond with valid JSON in the format shown above. Use \"no_action\" if the user is just asking a question or chatting.\n"@
}

/// The parts with `sep` between every two of them.
pub fn join(parts: &Vec<String>, sep: &str) -> (joined: String)
    ensures
        joined@ == join_of(texts(parts@), sep@),
{
    let mut joined = String::new();
    let mut i: usize = 0;
    proof {
        assert(texts(parts@).take(0) =~= Seq::<Seq<char>>::empty());
    }
    while i < parts.len()
        invariant
            i <= parts.len(),
            joined@ == join_of(texts(parts@).take(i as int), sep@),
        decreases parts.len() - i,
    {
        proof {
            assert(texts(parts@).take(i + 1).drop_last() =~= texts(parts@).take(i as int));
            assert(texts(parts@).take(i + 1).last() == parts@[i as int]@);
        }
        if i > 0 {
            joined.append(sep);
        }
        joined.append(parts[i].as_str());
        proof {
            if i == 0 {
                assert(joined@ =~= parts@[i as int]@);
            }
        }
        i += 1;
    }
    proof {
        assert(texts(parts@).take(i as int) =~= texts(parts@));
    }
    joined
}

fn context_text(user_context: Option<&str>) -> (section: String)
    ensures
        section@ == context_section(
            match user_context {
                Some(c) => Some(c@),
                None => None,
            },
        ),
{
    match user_context {
        Some(ctx) => {
            if ctx.unicode_len() > 0 {
                let mut section = "\nUser context:\n".to_owned();
                section.append(ctx);
                section.append("\n");
                section
            } else {
                String::new()
            }
        },
        None => String::new(),
    }
}

fn tag_text(store: &Store, board: Id) -> (list: String)
    ensures
        list@ == tag_list(store, board),
{
    let mut names: Vec<String> = Vec::new();
    let mut i: usize = 0;
    proof {
        reveal(Seq::filter);
        assert(store.tags().take(0) =~= Seq::<Tag>::empty());
        assert(texts(names@) =~= tag_names(store.tags().take(0), board));
    }
    while i < store.tag_count()
        invariant
            i <= store.tags().len(),
            texts(names@) == tag_names(store.tags().take(i as int), board),
        decreases store.tags().len() - i,
    {
        let tag = store.tag_at(i);
        let hit = match tag.board_id {
            Some(b) => b == board,
            None => false,
        };
        let ghost before = names@;
        if hit {
            names.push(tag.name.clone());
        }
        proof {
            reveal(Seq::filter);
            let mine = |t: Tag| t.board_id == Some(board);
            let to_name = |t: Tag| t.name@;
            assert(store.tags().take(i + 1).drop_last() =~= store.tags().take(i as int));
            if hit {
                assert(texts(names@) =~= texts(before).push(tag.name@));
                assert(store.tags().take(i + 1).filter(mine).map_values(to_name)
                    =~= store.tags().take(i as int).filter(mine).map_values(to_name).push(
                    tag.name@,
                ));
            }
        }
        i += 1;
    }
    proof {
        assert(store.tags().take(i as int) =~= store.tags());
    }
    if names.len() == 0 {
        "none".to_owned()
    } else {
        join(&names, ", ")
    }
}

fn column_lines(store: &Store, columns: &Vec<Id>) -> (lines: Vec<String>)
    requires
        store.wf(),
        forall|k: int| 0 <= k < columns.len() ==> store.columns().has(#[trigger] columns@[k]),
    ensures
        texts(lines@) == columns@.map_values(|c: Id| column_line(store, c)),
{
    let mut lines: Vec<String> = Vec::new();
    let mut i: usize = 0;
    while i < columns.len()
        invariant
            store.wf(),
            i <= columns.len(),
            lines.len() == i,
            forall|k: int| 0 <= k < columns.len() ==> store.columns().has(#[trigger] columns@[k]),
            forall|k: int| 0 <= k < i ==> (#[trigger] lines@[k])@ == column_line(store, columns@[k]),
        decreases columns.len() - i,
    {
        let count = store.list_cards(columns[i]).len();
        let mut line = match store.find_column(columns[i]) {
            Some(column) => column.name.clone(),
            None => String::new(),
        };
        line.append(" (");
        line.append(numeral(count).as_str());
        line.append(" cards)");
        lines.push(line);
        i += 1;
    }
    assert(texts(lines@) =~= columns@.map_values(|c: Id| column_line(store, c)));
    lines
}

/// Build the system prompt with board context and user context.
pub fn build_system_prompt(store: &Store, board_id: Id, user_context: Option<&str>) -> (result:
    Result<String, AppError>)
    requires
        store.wf(),
    ensures
        if !has_board(store.boards(), board_id) {
            refused(result, AppErrorView::NotFound)
        } else {
            result matches Ok(prompt) && prompt@ == board_prompt(
                store,
                board_id,
                match user_context {
                    Some(c) => Some(c@),
                    None => None,
                },
            )
        },
{
    let name = match store.find_board(board_id) {
        None => {
            return Err(AppError::NotFound);
        },
        Some(board) => board.name.clone(),
    };
    let columns = store.list_columns(board_id);
    proof {
        store.columns().lemma_order(Container::Board(board_id));
    }
    let lines = column_lines(store, &columns);
    let mut prompt = "You are a Kanban board assistant for the board \"".to_owned();
    prompt.append(name.as_str());
    prompt.append("\".\n");
    prompt.append(context_text(user_context).as_str());
    prompt.append("\nYou can execute these actions by responding with JSON:\n");
    prompt.append(BOARD_EXAMPLES);
    prompt.append("\nCurrent board state:\n- Board: ");
    prompt.append(name.as_str());
    prompt.append("\n- Columns: ");
    prompt.append(join(&lines, ", ").as_str());
    prompt.append("\n- Tags: ");
    prompt.append(tag_text(store, board_id).as_str());
    prompt.append(
        "\n\nIMPORTANT: Always respond with valid JSON in the format shown above. Use \"no_action\" if the user is just asking a question or chatting.\n",
    );
    Ok(prompt)
}

/// How many cards stand in the columns of `board`.
pub open spec fn cards_on(store: &Store, board: Id) -> nat {
    store.cards().rows().filter(|c: Card| store.home_board(c.id) == Some(board)).len()
}

/// What the model is told of a board that the user holds a role on: its name,
/// the role, its columns, how many cards stand in them, and its tags.
pub open spec fn board_summary(store: &Store, board: Id, role: BoardRole) -> Seq<char> {
    let columns = store.columns().order(Container::Board(board));
    "- "@ + store.board(board).name@ + " (role: "@ + role.name() + ", "@ + numeral_of(
        columns.len(),
    ) + " columns: ["@ + join_of(
        columns.map_values(|c: Id| store.columns().get(c).name@),
        ", "@,
    ) + "], "@ + numeral_of(cards_on(store, board)) + " cards, tags: ["@ + tag_list(store, board)
        + "])"@
}

/// The instructions for the global chat of `user`.
pub open spec fn global_prompt(store: &Store, user: Id, user_context: Option<Seq<char>>) -> Seq<
    char,
> {
    let boards = visible_boards(store.boards(), store.permissions(), user);
    if boards.len() == 0 {
        "You are a Kanban board assistant.\n"@ + context_section(user_context)
            + "\nYou don't have access to any boards yet. Suggest the user create a board first.\n\nRespond with JSON:\n{\"action\": \"no_action\", \"params\": {}, \"message\": \"Your response here...\"}\n"@
    } else {
        "You are a Kanban board assistant with access to multiple boards.\n"@ + context_section(
            user_context,
        )
            + "\nYou can execute actions across any of the user's boards. Always specify the \"board\" parameter.\n\nAvailable actions:\n"@
            + GLOBAL_EXAMPLES@ + "\nYour boards:\n"@ + join_of(
            boards.map_values(|b: (Id, BoardRole)| board_summary(store, b.0, b.1)),
            "\n"@,
        )
            + "\n\nIMPORTANT: Always respond with valid JSON. Always include \"board\" param for board-specific actions. Use \"no_action\" for questions.\n"@
    }
}

fn count_cards_on(store: &Store, board: Id) -> (n: usize)
    requires
        store.wf(),
    ensures
        n == cards_on(store, board),
{
    let cards = store.card_table();
    let mut n: usize = 0;
    let mut i: usize = 0;
    proof {
        reveal(Seq::filter);
        assert(store.cards().rows().take(0) =~= Seq::<Card>::empty());
    }
    while i < cards.len()
        invariant
            store.wf(),
            *cards == store.cards(),
            i <= cards.rows().len(),
            n <= i,
            n == store.cards().rows().take(i as int).filter(
                |c: Card| store.home_board(c.id) == Some(board),
            ).len(),
        decreases cards.rows().len() - i,
    {
        let card = cards.row(i);
        let home = store.get_board_id_for_card(card.id);
        proof {
            reveal(Seq::filter);
            assert(store.cards().rows().take(i + 1).drop_last() =~= store.cards().rows().take(
                i as int,
            ));
        }
        match home {
            Some(b) => {
                if b == board {
                    n += 1;
                }
            },
            None => {},
        }
        i += 1;
    }
    proof {
        assert(store.cards().rows().take(i as int) =~= store.cards().rows());
    }
    n
}

fn column_names(store: &Store, columns: &Vec<Id>) -> (names: Vec<String>)
    requires
        store.wf(),
        forall|k: int| 0 <= k < columns.len() ==> store.columns().has(#[trigger] columns@[k]),
    ensures
        texts(names@) == columns@.map_values(|c: Id| store.columns().get(c).name@),
{
    let mut names: Vec<String> = Vec::new();
    let mut i: usize = 0;
    while i < columns.len()
        invariant
            store.wf(),
            i <= columns.len(),
            names.len() == i,
            forall|k: int| 0 <= k < columns.len() ==> store.columns().has(#[trigger] columns@[k]),
            forall|k: int|
                0 <= k < i ==> (#[trigger] names@[k])@ == store.columns().get(columns@[k]).name@,
        decreases columns.len() - i,
    {
        let name = match store.find_column(columns[i]) {
            Some(column) => column.name.clone(),
            None => String::new(),
        };
        names.push(name);
        i += 1;
    }
    assert(texts(names@) =~= columns@.map_values(|c: Id| store.columns().get(c).name@));
    names
}

fn summary_of(store: &Store, board: Id, role: BoardRole) -> (summary: String)
    requires
        store.wf(),
        has_board(store.boards(), board),
    ensures
        summary@ == board_summary(store, board, role),
{
    let name = match store.find_board(board) {
        Some(b) => b.name.clone(),
        None => String::new(),
    };
    let columns = store.list_columns(board);
    proof {
        store.columns().lemma_order(Container::Board(board));
    }
    let names = column_names(store, &columns);
    let mut summary = "- ".to_owned();
    summary.append(name.as_str());
    summary.append(" (role: ");
    summary.append(role.to_string().as_str());
    summary.append(", ");
    summary.append(numeral(columns.len()).as_str());
    summary.append(" columns: [");
    summary.append(join(&names, ", ").as_str());
    summary.append("], ");
    summary.append(numeral(count_cards_on(store, board)).as_str());
    summary.append(" cards, tags: [");
    summary.append(tag_text(store, board).as_str());
    summary.append("])");
    summary
}

/// Build the global system prompt with all accessible boards.
pub fn build_global_system_prompt(store: &Store, user_id: Id, user_context: Option<&str>) -> (prompt:
    String)
    requires
        store.wf(),
    ensures
        prompt@ == global_prompt(
            store,
            user_id,
            match user_context {
                Some(c) => Some(c@),
                None => None,
            },
        ),
{
    let boards = store.list_for_user(user_id);
    let section = context_text(user_context);
    if boards.len() == 0 {
        let mut prompt = "You are a Kanban board assistant.\n".to_owned();
        prompt.append(section.as_str());
        prompt.append(
            "\nYou don't have access to any boards yet. Suggest the user create a board first.\n\nRespond with JSON:\n{\"action\": \"no_action\", \"params\": {}, \"message\": \"Your response here...\"}\n",
        );
        return prompt;
    }
    let mut summaries: Vec<String> = Vec::new();
    let mut i: usize = 0;
    while i < boards.len()
        invariant
            store.wf(),
            i <= boards.len(),
            summaries.len() == i,
            boards@ == visible_boards(store.boards(), store.permissions(), user_id),
            forall|k: int|
                0 <= k < i ==> (#[trigger] summaries@[k])@ == board_summary(
                    store,
                    boards@[k].0,
                    boards@[k].1,
                ),
        decreases boards.len() - i,
    {
        let (board, role) = boards[i];
        proof {
            lemma_visible_exists(store, user_id, i as int);
        }
        summaries.push(summary_of(store, board, role));
        i += 1;
    }
    assert(texts(summaries@) =~= boards@.map_values(
        |b: (Id, BoardRole)| board_summary(store, b.0, b.1),
    ));
    let mut prompt = "You are a Kanban board assistant with access to multiple boards.\n".to_owned();
    prompt.append(section.as_str());
    prompt.append(
        "\nYou can execute actions across any of the user's boards. Always specify the \"board\" parameter.\n\nAvailable actions:\n",
    );
    prompt.append(GLOBAL_EXAMPLES);
    prompt.append("\nYour boards:\n");
    prompt.append(join(&summaries, "\n").as_str());
    prompt.append(
        "\n\nIMPORTANT: Always respond with valid JSON. Always include \"board\" param for board-specific actions. Use \"no_action\" for questions.\n",
    );
    prompt
}

/// The boards that a user is shown exist.
pub proof fn lemma_visible_exists(store: &Store, user: Id, k: int)
    requires
        store.wf(),
        0 <= k < visible_boards(store.boards(), store.permissions(), user).len(),
    ensures
        has_board(
            store.boards(),
            visible_boards(store.boards(), store.permissions(), user)[k].0,
        ),
{
    lemma_shown_from(store.boards(), store.permissions(), user, k);
}

/// Every board that a user is shown is one of the boards.
pub proof fn lemma_shown_from(
    boards: Seq<crate::models::board::Board>,
    perms: Seq<crate::models::board::BoardPermission>,
    user: Id,
    k: int,
)
    requires
        0 <= k < visible_boards(boards, perms, user).len(),
    ensures
        has_board(boards, visible_boards(boards, perms, user)[k].0),
    decreases boards.len(),
{
    if boards.len() > 0 {
        let rest = boards.drop_last();
        let shown_rest = visible_boards(rest, perms, user);
        if k < shown_rest.len() {
            lemma_shown_from(rest, perms, user, k);
            let j: int = crate::store::board_row(rest, shown_rest[k].0);
            assert(boards[j].id == shown_rest[k].0);
        } else {
            assert(boards[boards.len() - 1].id == boards.last().id);
        }
    }
}

} // verus!
