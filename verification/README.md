# bip39_last_word

A touchscreen BIP39 final-word helper for the LilyGO T-Display-S3 Pro, with
its logic verified by Verus.

- `src/` is the verified library: the final-word calculation over the BIP39
  word lists (`last_word`), pinyin input for the Simplified Chinese list
  (`chinese`), the word-entry and entropy flows with their presentation
  (`mnemonic`, `english_flow`), the BIP84 receive-address pages
  (`receive_addresses`, `address_text`), and the decoding and decisions of the
  board drivers (`cst226se`, `sy6970`, `power`, `touch`, `display`).
- `tests/` runs the library on concrete values.
- `app/` is the firmware around it: ESP32-S3 bring-up, the asynchronous I²C
  and SPI transfers, the Slint window and the event loop.
