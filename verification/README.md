# cthulhu_roller

Dice rolling and character sheets for the Call of Cthulhu roleplaying game
(7th edition), written in Verus: every function of the library carries a
contract that Verus proves.

## Layout

- `src/roller/`: roll queries such as `3d6x5+1` (`roll`, `query`), skill
  tests with bonus and penalty dice (`croll`, `modifier_dice`,
  `success_level`), improvement tests, rolled characteristics and the
  initiative order of a fight (`battle`). Random numbers come through the
  `DiceRng` trait; `RealRng` draws them from `rand`.
- `src/character/`: characteristics, skills, weapons with ammunition (and
  the weapon a filled-in form describes),
  items, talents, and changes of hit points, sanity, luck and magic.
- `src/play.rs`: the decisions of play: luck spent on a test, pushed
  rolls, rounds of attacks that fire and may jam, damage rolls.
- `src/development.rs`: the development phase of marked skills.
- `src/inventory.rs`: items and weapons found by name, added, taken and
  handed over.
- `src/user_data.rs`: a user's characters and the one in play.
- `src/message.rs`, `src/sheet.rs`, `src/roll_message.rs`: the texts of
  the messages, with tables drawn by `tabled` (`src/table.rs`).
- `src/locale.rs`: English and Polish texts.
- `app/`: a command line front end that keeps sheets in `db.json`.
- `tests/`: tests of the library on concrete values.
