# linux_bt_proxy

A Bluetooth Low Energy proxy for ESPHome: it listens to BlueZ over D-Bus and
turns what BlueZ knows of a device into the two forms of advertisement that API
clients ask for.

`src/` is the core of the proxy, verified with Verus.

- `utils`: MAC addresses as text.
- `uuid`: service UUIDs and their short forms.
- `raw_adv`: advertising data as AD structures.
- `ble`: advertisements in both forms.
- `properties`: the device properties that advertisements are made of.
- `variant`: D-Bus variants. All calls into `zvariant` are here, behind
  contracts that are relied on without proof.
- `listener`: what the listener does about each event.
- `supervisor`: when a listener that stopped is started again.
- `startup`: finding the adapter, and how often the watchdog is told.
- `text`: splitting, and numbers as digits.

Proof functions whose names start with `law_` state what holds of the core as a
whole.

`app/` is the daemon: command line, D-Bus connection, logging and systemd.
`tests/` runs the core on concrete values, with the real `zvariant`.
