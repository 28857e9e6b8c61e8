mod board;
mod card;
mod circulation;
mod color;
mod deck;
mod discardpile;
mod drawfrom;
mod expedition;
mod game;
mod halfboard;
mod hand;
mod laws;
mod side;
mod value;

pub use self::board::{
    board_text, discard_spec, empty_board, play_spec, score_spec, take_spec, Board, BoardView,
};
pub use self::card::{card_id, card_text, color_of, stacks_on, value_of, Card};
pub use self::circulation::{
    copies, held, in_circulation, lemma_deal_in_circulation, lemma_turn_keeps_cards, occurrences,
    occurrences_in,
};
pub use self::color::{all_colors, color_at, letter_color, Color};
pub use self::deck::{stack_ids, Deck, IdStack};
pub use self::discardpile::{discard_text, pile_ids, pile_text, DiscardPile};
pub use self::drawfrom::{DrawFrom, PlayTo};
pub use self::expedition::{column_accepts, Expedition};
pub use self::game::{after_draw, after_play, is_shuffle, play_turn, Game, GameView};
pub use self::halfboard::{
    cell_text, halfboard_text, longest, row_at, row_text, rows_needed, Halfboard,
};
pub use self::hand::{
    hand_take, hand_text, hand_with, id_set, ids_of, in_order, set_ids, Hand, IdSet,
};
pub use self::laws::{
    after_draws, ids_with, lemma_card_identity, lemma_deck_draws, lemma_discard_and_draw_back,
    lemma_discard_then_take, lemma_discard_top, lemma_expedition_accepts, lemma_hand_fills,
    lemma_hand_refusals, with_all,
};
pub use self::side::Side;
pub use self::value::{letter_value, value_family, Value};
