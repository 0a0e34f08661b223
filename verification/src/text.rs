//! The texts that the host shows: numbers in decimal, the labels of the
//! items, the status of the player and the messages of a turn.

use vstd::prelude::*;
use vstd::string::StringExecFns;
use crate::game_master::GameMaster;
use crate::game_master::GameState;
use crate::game_master::Message;
use crate::item::GameItem;
use crate::player::PlayerState;

verus! {

/// The character of a decimal digit.
pub open spec fn digit_char(digit: int) -> char {
    if digit == 0 {
        '0'
    } else if digit == 1 {
        '1'
    } else if digit == 2 {
        '2'
    } else if digit == 3 {
        '3'
    } else if digit == 4 {
        '4'
    } else if digit == 5 {
        '5'
    } else if digit == 6 {
        '6'
    } else if digit == 7 {
        '7'
    } else if digit == 8 {
        '8'
    } else {
        '9'
    }
}

/// The decimal digits of a number, without leading zeros.
pub open spec fn decimal_digits(value: nat) -> Seq<char>
    decreases value,
{
    if value < 10 {
        seq![digit_char(value as int)]
    } else {
        decimal_digits(value / 10).push(digit_char((value % 10) as int))
    }
}

/// A number in decimal, with a minus sign in front if it is negative.
pub open spec fn decimal_text(value: int) -> Seq<char> {
    if value < 0 {
        seq!['-'] + decimal_digits((-value) as nat)
    } else {
        decimal_digits(value as nat)
    }
}

/// The text of one decimal digit.
fn digit_text(digit: u32) -> (text: &'static str)
    requires
        digit < 10,
    ensures
        text@ == seq![digit_char(digit as int)],
{
    proof {
        reveal_strlit("0");
        reveal_strlit("1");
        reveal_strlit("2");
        reveal_strlit("3");
        reveal_strlit("4");
        reveal_strlit("5");
        reveal_strlit("6");
        reveal_strlit("7");
        reveal_strlit("8");
        reveal_strlit("9");
    }
    let text = match digit {
        0 => "0",
        1 => "1",
        2 => "2",
        3 => "3",
        4 => "4",
        5 => "5",
        6 => "6",
        7 => "7",
        8 => "8",
        _ => "9",
    };
    assert(text@ =~= seq![digit_char(digit as int)]);
    text
}

/// Appends the decimal digits of `value` to `text`.
fn append_digits(text: &mut String, value: u32)
    ensures
        final(text)@ == old(text)@ + decimal_digits(value as nat),
    decreases value,
{
    if value >= 10 {
        append_digits(text, value / 10);
    }
    text.append(digit_text(value % 10));
    assert(text@ =~= old(text)@ + decimal_digits(value as nat));
}

/// Appends `value` in decimal to `text`.
pub fn append_number(text: &mut String, value: i32)
    ensures
        final(text)@ == old(text)@ + decimal_text(value as int),
{
    if value < 0 {
        proof {
            reveal_strlit("-");
        }
        text.append("-");
        append_digits(text, (-(value as i64)) as u32);
        assert(text@ =~= old(text)@ + decimal_text(value as int));
    } else {
        append_digits(text, value as u32);
    }
}

/// The label under which the host lists an item: its kind and its value,
/// and a dash for an empty slot.
pub open spec fn item_label(item: GameItem) -> Seq<char> {
    match item {
        GameItem::HealthPotion(potion) => "Health Potion: "@ + decimal_text(potion.heal_amount as int),
        GameItem::Sword(sword) => "Sword: "@ + decimal_text(sword.attack_bonus as int),
        GameItem::Shield(shield) => "Shield: "@ + decimal_text(shield.defense_bonus as int),
        GameItem::Null => "-"@,
    }
}

/// The status of the player in six lines: level, hit points, attack,
/// defense and experience.
pub open spec fn player_status(player: PlayerState) -> Seq<char> {
    "Level: "@ + decimal_text(player.level as int) + "\nHP: "@ + decimal_text(player.hp as int) + " /"@
        + decimal_text(player.max_hp as int) + "\nAttack: "@ + decimal_text(player.attack as int)
        + "\nDefense: "@ + decimal_text(player.defense as int) + "\nexp: "@ + decimal_text(
        player.exp_point as int,
    )
}

impl Message {
    /// The text of the message.
    pub open spec fn spec_text(self) -> Seq<char> {
        match self {
            Message::ItemPickedUp => "アイテムを拾った。"@,
            Message::InventoryFull => "持ち物がいっぱいです。"@,
            Message::HpRecovered => "HPが回復した。"@,
            Message::MobDamaged { id, damage } => "ID"@ + decimal_text(id as int) + "に"@ + decimal_text(
                damage as int,
            ) + "ダメージを与えた。"@,
            Message::MobDefeated { id } => "ID"@ + decimal_text(id as int) + "を倒した。"@,
            Message::AttackFumbled => "攻撃が外れた。"@,
            Message::LevelUp => "レベルアップした。"@,
            Message::PlayerDamaged { id, damage } => "プレイヤーはID"@ + decimal_text(id as int) + "から"@
                + decimal_text(damage as int) + "ダメージを受けた。"@,
            Message::PlayerDown => "力尽きた。"@,
        }
    }

    /// The text of the message, for the host to show.
    pub fn text(&self) -> (text: String)
        ensures
            text@ == self.spec_text(),
    {
        match *self {
            Message::ItemPickedUp => String::from_str("アイテムを拾った。"),
            Message::InventoryFull => String::from_str("持ち物がいっぱいです。"),
            Message::HpRecovered => String::from_str("HPが回復した。"),
            Message::MobDamaged { id, damage } => {
                let mut text = String::from_str("ID");
                append_number(&mut text, id);
                text.append("に");
                append_number(&mut text, damage);
                text.append("ダメージを与えた。");
                text
            },
            Message::MobDefeated { id } => {
                let mut text = String::from_str("ID");
                append_number(&mut text, id);
                text.append("を倒した。");
                text
            },
            Message::AttackFumbled => String::from_str("攻撃が外れた。"),
            Message::LevelUp => String::from_str("レベルアップした。"),
            Message::PlayerDamaged { id, damage } => {
                let mut text = String::from_str("プレイヤーはID");
                append_number(&mut text, id);
                text.append("から");
                append_number(&mut text, damage);
                text.append("ダメージを受けた。");
                text
            },
            Message::PlayerDown => String::from_str("力尽きた。"),
        }
    }
}

/// The label of an item.
pub fn label_of(item: &GameItem) -> (label: String)
    ensures
        label@ == item_label(*item),
{
    match *item {
        GameItem::HealthPotion(potion) => {
            let mut label = String::from_str("Health Potion: ");
            append_number(&mut label, potion.heal_amount);
            label
        },
        GameItem::Sword(sword) => {
            let mut label = String::from_str("Sword: ");
            append_number(&mut label, sword.attack_bonus);
            label
        },
        GameItem::Shield(shield) => {
            let mut label = String::from_str("Shield: ");
            append_number(&mut label, shield.defense_bonus);
            label
        },
        GameItem::Null => String::from_str("-"),
    }
}

impl GameState {
    /// The labels of the items in the player's inventory, slot by slot.
    pub open spec fn player_item_labels(self) -> Seq<Seq<char>> {
        Seq::new(self.dynamic_map.player.items.len(), |i: int| item_label(self.dynamic_map.player.items[i]))
    }

    /// The texts of the messages.
    pub open spec fn message_texts(self) -> Seq<Seq<char>> {
        Seq::new(self.message.len(), |i: int| self.message[i].spec_text())
    }
}

/// The texts of a list of strings.
pub open spec fn texts_of(strings: Seq<String>) -> Seq<Seq<char>> {
    Seq::new(strings.len(), |i: int| strings[i]@)
}

impl GameMaster {
    /// The status of the player, for the host to show.
    pub fn get_player_status(&self) -> (status: String)
        ensures
            status@ == player_status(self@.dynamic_map.player),
    {
        let player = &self.dynamic_map_manager.player;
        let mut status = String::from_str("Level: ");
        append_number(&mut status, player.level);
        status.append("\nHP: ");
        append_number(&mut status, player.hp);
        status.append(" /");
        append_number(&mut status, player.max_hp);
        status.append("\nAttack: ");
        append_number(&mut status, player.attack);
        status.append("\nDefense: ");
        append_number(&mut status, player.defense);
        status.append("\nexp: ");
        append_number(&mut status, player.exp_point);
        status
    }

    /// The labels of the items in the player's inventory, slot by slot.
    pub fn get_player_items(&self) -> (labels: Vec<String>)
        ensures
            texts_of(labels@) == self@.player_item_labels(),
    {
        let mut labels: Vec<String> = Vec::new();
        let mut i: usize = 0;
        while i < self.dynamic_map_manager.player.items.len()
            invariant
                i <= self.dynamic_map_manager.player.items.len(),
                labels.len() == i,
                forall|k: int| 0 <= k < i ==> (#[trigger] labels[k])@ == item_label(self.dynamic_map_manager.player.items[k]),
            decreases self.dynamic_map_manager.player.items.len() - i,
        {
            labels.push(label_of(&self.dynamic_map_manager.player.items[i]));
            i = i + 1;
        }
        assert(texts_of(labels@) =~= self@.player_item_labels());
        labels
    }

    /// The texts of the messages, for the host to show.
    pub fn get_message_texts(&self) -> (texts: Vec<String>)
        ensures
            texts_of(texts@) == self@.message_texts(),
    {
        let mut texts: Vec<String> = Vec::new();
        let mut i: usize = 0;
        while i < self.message.len()
            invariant
                i <= self.message.len(),
                texts.len() == i,
                forall|k: int| 0 <= k < i ==> (#[trigger] texts[k])@ == self.message[k].spec_text(),
            decreases self.message.len() - i,
        {
            texts.push(self.message[i].text());
            i = i + 1;
        }
        assert(texts_of(texts@) =~= self@.message_texts());
        texts
    }
}

} // verus!
