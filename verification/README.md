# cps_station

The controller of a cathodic protection station: it samples two rectifier modules, the potential,
a thermistor and a door contact, shows them on a small screen and a touch panel, reports them to a
server through a GSM modem, and answers on a Bluetooth and an RS-485 line.

`src/` holds the decisions, written and proved in Verus:

- `gsm::crc`, `gsm::packet`: the telemetry packet and its checksum
- `gsm::at`: one AT command with its replies, as a state machine
- `gsm::session`: the modem from power-up to the packets sent, as a state machine
- `display`: what is drawn where
- `dwin`: frames for the touch panel, and touches found in what it sends
- `rs485`, `bluetooth`: what is answered on the serial lines
- `encoder`: the rotary knob with its acceleration
- `power`: the power source, the charger, and the lights that show both
- `sensors`: what is decided about a measuring round
- `decimal`, `fixed`, `scan`: numbers as text, strings of fixed capacity, text in received bytes

`app/` is the firmware around it: hardware set-up, the tasks that carry out what the state
machines ask for, and the arithmetic in floating point. The library makes up vectors and texts, so
the firmware sets up a heap for it; its executor polls the tasks in a loop, without sleeping.
`tests/` runs the library on concrete values.
